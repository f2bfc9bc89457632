use machine_probe::probe::{
    check_hyperv_via_wmi, check_wsl_via_wmi, hyperv_summary, hyperv_wmi_attempt, registry_attempt,
    run_probe_chain, service_attempt, wsl_gate, wsl_summary, wsl_wmi_attempt, Attempt, GateOutcome, ProbeChain,
};
use machine_probe::records::OptionalFeature;

fn feature(name: &str, state: u32) -> OptionalFeature {
    OptionalFeature { name: name.to_string(), install_state: state }
}

fn attempt(confirmed: bool, line: &str) -> Attempt {
    Attempt { confirmed, line: line.to_string() }
}

#[test]
fn test_wmi() {
    let hyperv = check_hyperv_via_wmi(Ok(vec![feature("Microsoft-Hyper-V-All", 1)]));
    println!("{:?}", hyperv.clone().unwrap());
    assert_eq!(hyperv, Ok(true));
    let wsl = check_wsl_via_wmi(Ok(vec![
        feature("Microsoft-Windows-Subsystem-Linux", 1),
        feature("VirtualMachinePlatform", 2),
    ]));
    println!("{:?}", wsl.clone().unwrap());
    assert_eq!(wsl, Ok((true, false)));
}

#[test]
fn optional_feature_records() {
    assert_eq!(check_hyperv_via_wmi(Ok(vec![])), Ok(false));
    assert_eq!(check_hyperv_via_wmi(Ok(vec![feature("Microsoft-Hyper-V-All", 2)])), Ok(false));
    assert_eq!(check_hyperv_via_wmi(Err("denied".to_string())), Err("denied".to_string()));
    assert_eq!(
        check_wsl_via_wmi(Ok(vec![
            feature("VirtualMachinePlatform", 1),
            feature("Microsoft-Windows-Subsystem-Linux", 1),
        ])),
        Ok((true, true))
    );
    assert_eq!(check_wsl_via_wmi(Ok(vec![feature("Other", 1)])), Ok((false, false)));
    assert_eq!(check_wsl_via_wmi(Err("e".to_string())), Err("e".to_string()));
}

#[test]
fn chain_stops_at_first_confirmation() {
    let attempts = vec![attempt(false, "a"), attempt(true, "b"), attempt(true, "c")];
    let s = run_probe_chain(&attempts, "summary".to_string());
    assert!(s.enabled);
    assert_eq!(s.details, vec!["a".to_string(), "b".to_string()]);
}

#[test]
fn chain_without_confirmation_adds_summary() {
    let attempts = vec![attempt(false, "a"), attempt(false, "b")];
    let s = run_probe_chain(&attempts, "summary".to_string());
    assert!(!s.enabled);
    assert_eq!(s.details, vec!["a".to_string(), "b".to_string(), "summary".to_string()]);
    let s = run_probe_chain(&vec![], "summary".to_string());
    assert!(!s.enabled);
    assert_eq!(s.details, vec!["summary".to_string()]);
}

#[test]
fn chain_first_method_confirms() {
    let s = run_probe_chain(&vec![attempt(true, "x")], "summary".to_string());
    assert!(s.enabled);
    assert_eq!(s.details.len(), 1);
}

#[test]
fn gated_chain_invokes_no_method() {
    let mut calls = 0;
    let mut method = |present: bool| {
        calls += 1;
        registry_attempt(present)
    };
    let status = match wsl_gate(false) {
        GateOutcome::Closed(s) => s,
        GateOutcome::Passed(found) => {
            let mut chain = ProbeChain::new();
            chain.record(found);
            chain.record(method(true));
            chain.finish(wsl_summary())
        }
    };
    assert_eq!(calls, 0);
    assert!(!status.enabled);
    assert_eq!(status.details, vec!["文件检查: 未找到 wsl.exe，WSL 未安装。".to_string()]);
}

#[test]
fn passed_gate_opens_the_trail() {
    let found = match wsl_gate(true) {
        GateOutcome::Passed(a) => a,
        GateOutcome::Closed(_) => panic!("wsl.exe is present, yet the chain was closed"),
    };
    assert!(!found.confirmed);
    assert_eq!(found.line, "文件检查: 找到 wsl.exe。");
    let mut chain = ProbeChain::new();
    assert!(!chain.record(found));
    assert!(chain.record(service_attempt("LxssManager", Ok(true))));
    let status = chain.finish(wsl_summary());
    assert!(status.enabled);
    assert_eq!(
        status.details,
        vec!["文件检查: 找到 wsl.exe。".to_string(), "服务 'LxssManager': 状态为 '正在运行'。".to_string()]
    );
    let attempts = vec![
        attempt(false, "文件检查: 找到 wsl.exe。"),
        service_attempt("LxssManager", Ok(false)),
        registry_attempt(false),
        wsl_wmi_attempt(Ok((true, false))),
    ];
    let status = run_probe_chain(&attempts, wsl_summary());
    assert!(!status.enabled);
    assert_eq!(status.details.len(), 5);
    assert_eq!(status.details[4], "所有检测方法均未能确认 WSL 已完全启用。");
}

#[test]
fn stepped_chain_skips_later_methods() {
    let mut calls = 0;
    let mut chain = ProbeChain::new();
    let outcomes = [false, true, true];
    for o in outcomes {
        calls += 1;
        if chain.record(registry_attempt(o)) {
            break;
        }
    }
    let status = chain.finish(hyperv_summary());
    assert_eq!(calls, 2);
    assert!(status.enabled);
    assert_eq!(status.details.len(), 2);
}

#[test]
fn attempt_lines() {
    let a = service_attempt("vmms", Ok(true));
    assert!(a.confirmed);
    assert_eq!(a.line, "服务 'vmms': 状态为 '正在运行'。");
    let a = service_attempt("LxssManager", Ok(false));
    assert!(!a.confirmed);
    assert_eq!(a.line, "服务 'LxssManager': 状态为 '已停止'。");
    let a = service_attempt("vmms", Err("access denied".to_string()));
    assert!(!a.confirmed);
    assert_eq!(a.line, "服务 'vmms' 查询失败: access denied。");
    let a = hyperv_wmi_attempt(Ok(false));
    assert!(!a.confirmed);
    assert_eq!(a.line, "WMI 检查: Hyper-V 可选功能状态为 未启用。");
    assert_eq!(hyperv_wmi_attempt(Ok(true)).line, "WMI 检查: Hyper-V 可选功能状态为 已启用。");
    let a = hyperv_wmi_attempt(Err("boom".to_string()));
    assert_eq!(a.line, "boom");
    let a = wsl_wmi_attempt(Ok((true, false)));
    assert!(!a.confirmed);
    assert_eq!(
        a.line,
        "WMI: 'Microsoft-Windows-Subsystem-Linux' 状态为 已启用. WMI: 'VirtualMachinePlatform' 状态为 未启用."
    );
    assert!(wsl_wmi_attempt(Ok((true, true))).confirmed);
    assert_eq!(
        wsl_wmi_attempt(Err("x".to_string())).line,
        "WMI 查询可选功能失败: x。"
    );
    assert_eq!(registry_attempt(true).line, "注册表检查: WSL 已启用。");
    assert_eq!(registry_attempt(false).line, "注册表检查: WSL 未启用。");
    assert_eq!(hyperv_summary(), "所有检测方法均未能确认 Hyper-V 已完全启用。");
}
