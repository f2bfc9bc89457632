use machine_probe::encode::{decimal_text, signed_decimal_text};
use machine_probe::platform::{
    apartment_description, check_hv_support_status, check_kvm_status, check_virtual_support,
    encoding_name, firmware_virtualization_status, hyperv_environment, overall_status_message,
    system_encoding, text_contains, virtual_support_from_cpuid, virtualization_info,
};

#[test]
fn cpu_vendor_decides_the_feature_bit() {
    let (ok, vendor, name) = virtual_support_from_cpuid("GenuineIntel".to_string(), 1 << 5, 0);
    assert!(ok);
    assert_eq!(vendor, "GenuineIntel");
    assert_eq!(name, "Intel VT-x (VMX)");
    let (ok, _, _) = virtual_support_from_cpuid("GenuineIntel".to_string(), 1 << 4, 1 << 2);
    assert!(!ok);
    let (ok, _, name) = virtual_support_from_cpuid("AuthenticAMD".to_string(), 0, 1 << 2);
    assert!(ok);
    assert_eq!(name, "AMD-V (SVM)");
    let (ok, _, name) = virtual_support_from_cpuid("HygonGenuine".to_string(), u32::MAX, u32::MAX);
    assert!(!ok);
    assert_eq!(name, "Unknown");
    assert_eq!(check_virtual_support(), (false, "N/A".to_string(), "Not supported"));
}

#[test]
fn hypervisor_signature_and_guest_bit() {
    assert_eq!(hyperv_environment("Microsoft Hv", 1 << 31), (true, true));
    assert_eq!(hyperv_environment("MicrosoftXv", 0), (true, false));
    assert_eq!(hyperv_environment("MicrosoftXv!", 0), (true, false));
    assert_eq!(hyperv_environment("Microsoft", 0), (false, false));
    assert_eq!(hyperv_environment("KVMKVMKVM", 1 << 31), (false, true));
    assert_eq!(hyperv_environment("", 0), (false, false));
    assert!(text_contains("xxGenuineIntelyy", "GenuineIntel"));
    assert!(!text_contains("Genuine", "GenuineIntel"));
}

#[test]
fn firmware_status_lines() {
    assert_eq!(firmware_virtualization_status(true, false, "s"), (true, "虚拟化已在固件中启用".to_string()));
    assert_eq!(
        firmware_virtualization_status(false, true, "s"),
        (true, "虚拟化检测在 Hypervisor 下失效".to_string())
    );
    assert_eq!(
        firmware_virtualization_status(false, false, "GenuineIntel"),
        (false, "虚拟化未在固件中启用或此检查不受支持(CPU Sign: GenuineIntel)".to_string())
    );
}

#[test]
fn kvm_status_lines() {
    assert_eq!(check_kvm_status(false, Ok(12), 0), (false, "/dev/kvm 设备文件不存在".to_string()));
    assert_eq!(
        check_kvm_status(true, Ok(12), 0),
        (true, "/dev/kvm 可访问且 API 版本为 12 (预期值)。KVM 已启用。".to_string())
    );
    assert_eq!(
        check_kvm_status(true, Ok(7), 0),
        (true, "/dev/kvm 可访问，API 版本为 7。KVM 可能已启用。".to_string())
    );
    let (ok, line) = check_kvm_status(true, Ok(-1), 13);
    assert!(!ok);
    assert_eq!(line, "/dev/kvm 打开成功，但 ioctl(KVM_GET_API_VERSION) 失败。错误码: 13. KVM 可能未完全启用或权限不足。");
    let (ok, line) = check_kvm_status(true, Err("Permission denied".to_string()), 0);
    assert!(!ok);
    assert!(line == "无法打开 /dev/kvm: Permission denied. 确保有足够权限，且 kvm 内核模块 (kvm_intel 或 kvm_amd) 已加载。");
}

#[test]
fn hv_support_lines() {
    assert_eq!(
        check_hv_support_status(0, 1, 0),
        (true, "kern.hv_support (Hypervisor Framework) 为 1，虚拟化已启用。".to_string())
    );
    assert_eq!(
        check_hv_support_status(0, 0, 0),
        (false, "kern.hv_support (Hypervisor Framework) 为 0，虚拟化未启用或不受支持。".to_string())
    );
    assert_eq!(check_hv_support_status(-1, 1, 2), (false, "sysctlbyname 调用失败。错误码: 2".to_string()));
}

#[test]
fn decimal_rendering() {
    assert_eq!(signed_decimal_text(0), "0");
    assert_eq!(signed_decimal_text(-2147483648), "-2147483648");
    assert_eq!(signed_decimal_text(4096), "4096");
    assert_eq!(signed_decimal_text(2147483647), "2147483647");
    assert_eq!(decimal_text(u64::MAX), "18446744073709551615");
    assert_eq!(decimal_text(10), "10");
    assert_eq!(apartment_description(7), "Unknown Apartment Type (7)");
    assert_eq!(apartment_description(-3), "Unknown Apartment Type (-3)");
    assert_eq!(apartment_description(0), "STA (Single-Threaded Apartment)");
    assert_eq!(apartment_description(1), "MTA (Multi-Threaded Apartment)");
    assert_eq!(apartment_description(2), "NA (Neutral Apartment)");
}

#[test]
fn overall_messages() {
    assert_eq!(
        overall_status_message(true, true, "VMX", "d"),
        "CPU 支持虚拟化，并且似乎已在操作系统/固件中启用。"
    );
    assert_eq!(
        overall_status_message(true, false, "VMX", "d"),
        "CPU 支持虚拟化 (VMX)，但操作系统报告其未启用或无法确认。详情: d"
    );
    assert!(overall_status_message(false, true, "Unknown", "d") == "CPU 不支持虚拟化 (Unknown)，但操作系统报告支持，这常见于运行在虚拟系统下或不支持检测该 CPU。详情：d");
    assert_eq!(overall_status_message(false, false, "SVM", "d"), "CPU 不支持虚拟化 (SVM).");
    let info = virtualization_info("x86_64", "linux", true, "Intel VT-x (VMX)", (true, "ok".to_string()));
    assert_eq!(info.os_check_details, "ok");
    assert!(info.os_reported_enabled);
    assert_eq!(info.overall_status_message, overall_status_message(true, true, "Intel VT-x (VMX)", "ok"));
}

#[test]
fn code_page_names() {
    assert_eq!(encoding_name(65001), "UTF-8");
    assert_eq!(encoding_name(936), "GBK");
    assert_eq!(encoding_name(950), "BIG5");
    assert_eq!(encoding_name(1252), "WINDOWS-1252");
    assert_eq!(encoding_name(932), "SHIFT-JIS");
    assert_eq!(encoding_name(437), "UNKNOWN");
    let e = system_encoding(936, 437);
    assert_eq!(e.ansi_encoding, "GBK");
    assert_eq!(e.oem_encoding, "UNKNOWN");
    assert_eq!(e.oem_code, 437);
}
