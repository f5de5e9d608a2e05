use stelliberty_ipc::handlers::{finish_request, IpcResponse as CallReport, RestMethod};
use stelliberty_ipc::http::HttpResponse;
use stelliberty_ipc::loopback::{loopback_error_detail, sid_to_string};
use stelliberty_ipc::process::{ClashProcessResult, StartClashProcess, StopClashProcess};
use stelliberty_ipc::service::{
    interpret_command_reply, pid_from_status_reply, ServiceCallError, ServiceManager, ServiceOperationResult,
    ServiceStatus, ServiceStatusResponse, StartClash,
};
use stelliberty_ipc::service_protocol::{IpcCommand, IpcError, IpcResponse};
use stelliberty_ipc::signals::{
    access_denied, join_strings, LoopbackChangeOutcome, AppContainer, AppUpdateResult, BackupOperationResult, GetAppContainers, GetAutoStartStatus, OpenUrl,
    SaveLoopbackConfiguration, SetAutoStartStatus, SetLoopback,
};
use stelliberty_ipc::subscription::{parse_subscription_info, DownloadSubscriptionResponse, ProxyMode};

#[test]
fn only_put_takes_the_gate() {
    assert!(RestMethod::Put.is_mutating());
    for m in [RestMethod::Get, RestMethod::Post, RestMethod::Patch, RestMethod::Delete] {
        assert!(!m.is_mutating());
    }
    assert_eq!(RestMethod::Patch.as_str(), "PATCH");
    assert!(!RestMethod::Get.sends_body());
    assert!(RestMethod::Post.sends_body());
}

#[test]
fn successful_call_returns_connection() {
    let (report, keep) = finish_request(7, Ok(HttpResponse { status_code: 200, body: "{}".to_string() }));
    assert!(keep);
    assert_eq!(report.request_id, 7);
    assert_eq!(report.status_code, 200);
    assert_eq!(report.body, "{}");
    assert!(report.success);
    assert!(report.error_message.is_none());
}

#[test]
fn failed_call_drops_connection() {
    let (report, keep) = finish_request(8, Err("broken pipe".to_string()));
    assert!(!keep);
    assert_eq!(report.status_code, 0);
    assert!(!report.success);
    assert_eq!(report.error_message.as_deref(), Some("IPC 请求失败：broken pipe"));
    let r: CallReport = CallReport::acquire_failed(9, "os error 2");
    assert_eq!(r.error_message.as_deref(), Some("获取连接失败：os error 2"));
    let r: CallReport = CallReport::gate_failed(10, "closed");
    assert_eq!(r.error_message.as_deref(), Some("获取配置锁失败：closed"));
}

#[test]
fn status_from_replies() {
    let running = ServiceStatus::from_status_reply(Ok(IpcResponse::Status {
        clash_running: true,
        clash_pid: Some(42),
        service_uptime: 99,
    }));
    assert!(matches!(running, ServiceStatus::Running { pid: 42, uptime: 99 }));
    let stopped = ServiceStatus::from_status_reply(Ok(IpcResponse::Status {
        clash_running: false,
        clash_pid: None,
        service_uptime: 1,
    }));
    assert!(matches!(stopped, ServiceStatus::Stopped));
    assert!(matches!(ServiceStatus::from_status_reply(Err(IpcError::Timeout)), ServiceStatus::Unknown));
    assert!(matches!(ServiceStatus::unreachable(true), ServiceStatus::Stopped));
    assert!(matches!(ServiceStatus::unreachable(false), ServiceStatus::Unknown));
}

#[test]
fn status_reports() {
    let r = ServiceStatusResponse::from_status(ServiceStatus::Running { pid: 5, uptime: 6 });
    assert_eq!(r.status, "running");
    assert_eq!(r.pid, Some(5));
    assert_eq!(r.uptime, Some(6));
    let r = ServiceStatusResponse::from_status(ServiceStatus::NotInstalled);
    assert_eq!(r.status, "not_installed");
    assert_eq!(r.pid, None);
    assert_eq!(ServiceStatusResponse::from_status(ServiceStatus::Unknown).status, "unknown");
    assert_eq!(ServiceStatusResponse::from_status(ServiceStatus::Stopped).status, "stopped");
}

#[test]
fn command_replies() {
    assert!(matches!(interpret_command_reply(Ok(IpcResponse::Success { message: None })), Ok(())));
    assert!(matches!(
        interpret_command_reply(Ok(IpcResponse::Error { code: 3, message: "x".to_string() })),
        Err(ServiceCallError::Rejected(3, _))
    ));
    assert!(matches!(interpret_command_reply(Ok(IpcResponse::Pong)), Err(ServiceCallError::Unexpected)));
    assert!(matches!(interpret_command_reply(Err(IpcError::Timeout)), Err(ServiceCallError::Send(IpcError::Timeout))));
    let reply = Ok(IpcResponse::Status { clash_running: true, clash_pid: Some(77), service_uptime: 0 });
    assert_eq!(pid_from_status_reply(&reply), Some(77));
    assert_eq!(pid_from_status_reply(&Ok(IpcResponse::Pong)), None);
}

#[test]
fn start_request_becomes_command() {
    let req = StartClash {
        core_path: "/opt/core".to_string(),
        config_path: "/etc/c.yaml".to_string(),
        data_dir: "/var/d".to_string(),
        external_controller: "127.0.0.1:9090".to_string(),
    };
    match req.to_command() {
        IpcCommand::StartClash { core_path, config_path, data_dir, external_controller } => {
            assert_eq!(core_path, "/opt/core");
            assert_eq!(config_path, "/etc/c.yaml");
            assert_eq!(data_dir, "/var/d");
            assert_eq!(external_controller, "127.0.0.1:9090");
        },
        _ => panic!("wrong command"),
    }
    let m = ServiceManager::new("/x/stelliberty-service".to_string());
    assert_eq!(m.service_exe_path, "/x/stelliberty-service");
    assert_eq!(m.ipc_client.max_retries, 3);
    let r = ServiceOperationResult::from_outcome(Err("denied".to_string()));
    assert!(!r.success);
    assert_eq!(r.error_message.as_deref(), Some("denied"));
}

#[test]
fn auto_start_and_url_reports() {
    let r = GetAutoStartStatus.handle(Ok(true));
    assert!(r.enabled && r.error_message.is_none());
    let r = SetAutoStartStatus { enabled: true }.handle(Err("no permission".to_string()));
    assert!(!r.enabled);
    assert_eq!(r.error_message.as_deref(), Some("no permission"));
    let r = OpenUrl { url: "https://example.org".to_string() }.handle(Ok(()));
    assert!(r.success);
    let r = SetLoopback { package_family_name: "p".to_string(), enabled: true }.handle(Err("e".to_string()));
    assert!(!r.success);
}

fn container(name: &str, sid: &str, enabled: bool) -> AppContainer {
    AppContainer {
        app_container_name: name.to_string(),
        display_name: name.to_uppercase(),
        package_family_name: format!("{}_pkg", name),
        sid: vec![1, 2, 3],
        sid_string: sid.to_string(),
        is_loopback_enabled: enabled,
    }
}

#[test]
fn container_records() {
    let cs = vec![container("a", "S-1-15-2-1", true), container("b", "S-1-15-2-2", false)];
    let (list, infos, _done) = GetAppContainers.handle(&Ok(cs));
    assert!(list.containers.is_empty());
    assert_eq!(infos.len(), 2);
    assert_eq!(infos[1].container_name, "b");
    assert_eq!(infos[1].package_family_name, "b_pkg");
    assert!(infos[0].loopback_enabled);
    let (_, infos, _) = GetAppContainers.handle(&Err("x".to_string()));
    assert!(infos.is_empty());
}

#[test]
fn loopback_changes() {
    let cs = vec![
        container("a", "S-1", true),
        container("b", "S-2", false),
        container("c", "S-3", true),
        container("d", "S-4", false),
    ];
    let req = SaveLoopbackConfiguration { sid_strings: vec!["S-2".to_string(), "S-3".to_string()] };
    assert_eq!(req.changes_needed(&cs), vec![(0, false), (1, true)]);
}

#[test]
fn backup_and_update_reports() {
    let r = BackupOperationResult::from_create(Ok("/tmp/b.json".to_string()));
    assert!(r.success);
    assert_eq!(r.message, "/tmp/b.json");
    let r = BackupOperationResult::from_restore(Ok(()));
    assert_eq!(r.message, "备份还原成功");
    let r = BackupOperationResult::from_restore(Err("bad".to_string()));
    assert!(!r.success && r.message.is_empty());
    let r = AppUpdateResult::failed("1.0.0".to_string(), "offline".to_string());
    assert_eq!(r.current_version, "1.0.0");
    assert!(!r.has_update && r.latest_version.is_empty());
    assert_eq!(r.error_message.as_deref(), Some("offline"));
}

#[test]
fn subscription_userinfo_header() {
    let info = parse_subscription_info("upload=0; download=123456; total=1073741824; expire=1735689600").unwrap();
    assert_eq!(info.upload, Some(0));
    assert_eq!(info.download, Some(123456));
    assert_eq!(info.total, Some(1073741824));
    assert_eq!(info.expire, Some(1735689600));
    let info = parse_subscription_info(" expire = -5 ;other=1;upload=x").unwrap();
    assert_eq!(info.expire, Some(-5));
    assert_eq!(info.upload, None);
    assert!(parse_subscription_info("foo=1; bar").is_none());
    assert!(parse_subscription_info("").is_none());
}

#[test]
fn proxy_and_download_reports() {
    assert_eq!(ProxyMode::Core.proxy_url(7890).as_deref(), Some("http://127.0.0.1:7890"));
    assert!(ProxyMode::Direct.proxy_url(7890).is_none());
    assert!(ProxyMode::System.proxy_url(7890).is_none());
    let r = DownloadSubscriptionResponse::from_download(Ok((String::new(), None)));
    assert!(!r.success);
    assert_eq!(r.error_message.as_deref(), Some("订阅内容为空"));
    let r = DownloadSubscriptionResponse::from_download(Ok(("proxies: []".to_string(), None)));
    assert!(r.success);
    assert_eq!(r.content, "proxies: []");
}

#[test]
fn loopback_summary_with_failures() {
    let cs = vec![container("a", "S-1", true), container("b", "S-2", false), container("c", "S-3", false)];
    let req = SaveLoopbackConfiguration { sid_strings: vec!["S-2".to_string(), "S-3".to_string()] };
    let changes = req.changes_needed(&cs);
    assert_eq!(changes, vec![(0, false), (1, true), (2, true)]);
    let outcomes = vec![
        LoopbackChangeOutcome::Applied,
        LoopbackChangeOutcome::Failed("code 0x80070005".to_string()),
        LoopbackChangeOutcome::Failed("code 0x80070057".to_string()),
    ];
    let r = req.summarize(&cs, &changes, &outcomes);
    assert!(!r.success);
    assert_eq!(
        r.error_message.as_deref(),
        Some("成功修改：1个，跳过系统保护应用：1个，（B），失败：1个。\n错误详情：\nC：code 0x80070057")
    );
}

#[test]
fn loopback_summary_without_changes() {
    let req = SaveLoopbackConfiguration { sid_strings: vec![] };
    let r = req.summarize(&vec![], &vec![], &vec![]);
    assert!(r.success);
    assert_eq!(r.error_message.as_deref(), Some("配置保存成功（无需修改）"));
    let r = SaveLoopbackConfiguration::enumeration_failed("E_FAIL");
    assert!(!r.success);
    assert_eq!(r.error_message.as_deref(), Some("无法枚举容器：E_FAIL"));
}

#[test]
fn loopback_summary_many_skipped_hides_names() {
    let cs: Vec<AppContainer> = (0..4).map(|i| container(&format!("n{}", i), "S", true)).collect();
    let changes = vec![(0, false), (1, false), (2, false), (3, false)];
    let outcomes: Vec<LoopbackChangeOutcome> =
        (0..4).map(|_| LoopbackChangeOutcome::Failed("ERROR_ACCESS_DENIED".to_string())).collect();
    let req = SaveLoopbackConfiguration { sid_strings: vec![] };
    let r = req.summarize(&cs, &changes, &outcomes);
    assert!(r.success);
    assert_eq!(r.error_message.as_deref(), Some("跳过系统保护应用：4个"));
    assert!(access_denied("x 0x00000005"));
    assert!(!access_denied("0x8007"));
    assert_eq!(join_strings(&vec!["a".to_string(), "b".to_string(), "c".to_string()], ", "), "a, b, c");
}

#[test]
fn sid_notation() {
    let sid = [1u8, 2, 0, 0, 0, 0, 0, 15, 2, 0, 0, 0, 0x10, 0x27, 0, 0];
    assert_eq!(sid_to_string(&sid), "S-1-15-2-10000");
    let big = [1u8, 1, 0, 0, 0, 0, 0, 5, 0xff, 0xff, 0xff, 0xff];
    assert_eq!(sid_to_string(&big), "S-1-5-4294967295");
    assert_eq!(sid_to_string(&[1u8, 3, 0, 0, 0, 0, 0, 15, 1, 0, 0, 0]), "");
    assert_eq!(sid_to_string(&[1u8, 0, 0]), "");
}

#[test]
fn firewall_error_details() {
    assert_eq!(loopback_error_detail(0x8007_0005), "权限不足");
    assert_eq!(loopback_error_detail(5), "权限不足");
    assert_eq!(loopback_error_detail(87), "参数无效");
    assert_eq!(loopback_error_detail(0x8000_4005), "系统限制");
    assert_eq!(loopback_error_detail(1), "未知错误");
}

#[test]
fn process_reports() {
    let req = StartClashProcess { executable_path: "/bin/core".to_string(), args: vec!["-d".to_string()] };
    let r = req.handle(true, Ok(1));
    assert!(!r.success);
    assert_eq!(r.error_message.as_deref(), Some("进程已在运行"));
    assert_eq!(r.pid, None);
    let r = req.handle(false, Ok(321));
    assert!(r.success);
    assert_eq!(r.pid, Some(321));
    let r = req.handle(false, Err("no such file".to_string()));
    assert!(!r.success);
    assert_eq!(r.error_message.as_deref(), Some("no such file"));
    let r = StopClashProcess.handle(Ok(()));
    assert!(r.success && r.pid.is_none());
    let r = ClashProcessResult::from_service_start(Ok(Some(9)));
    assert!(r.success);
    assert_eq!(r.pid, Some(9));
}
