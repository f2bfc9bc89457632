//! Decisions on what the platform reports about virtualization support and
//! encodings; the readings themselves (cpuid, ioctl, sysctl, firmware flags,
//! code pages) are taken by the caller and handed in as plain values.
use vstd::prelude::*;
use crate::encode::{decimal_of, signed_decimal_text};
use crate::text::{has_prefix, starts_with_text};

verus! {

/// Virtualization support of the machine, as reported to the host.
#[derive(Debug, Clone)]
pub struct VirtualizationInfo {
    pub arch: &'static str,
    pub os: &'static str,
    pub cpu_supported: bool,
    pub cpu_feature_name: &'static str,
    pub os_reported_enabled: bool,
    pub os_check_details: String,
    pub overall_status_message: String,
}

/// The ANSI and OEM code pages and their encoding names.
#[derive(Debug, Clone, Copy)]
pub struct SystemEncoding {
    pub ansi_code: u32,
    pub oem_code: u32,
    pub ansi_encoding: &'static str,
    pub oem_encoding: &'static str,
}

pub open spec fn contains_at(s: Seq<char>, needle: Seq<char>, i: int) -> bool {
    0 <= i && i + needle.len() <= s.len() && s.subrange(i, i + needle.len()) == needle
}

pub open spec fn contains_text(s: Seq<char>, needle: Seq<char>) -> bool {
    exists|i: int| contains_at(s, needle, i)
}

/// Whether `needle` occurs in `s`.
pub fn text_contains(s: &str, needle: &str) -> (r: bool)
    ensures
        r == contains_text(s@, needle@),
{
    let n = s.unicode_len();
    let m = needle.unicode_len();
    if m > n {
        return false;
    }
    if m == 0 {
        assert(s@.subrange(0, 0) =~= needle@);
        assert(contains_at(s@, needle@, 0));
        return true;
    }
    let mut i: usize = 0;
    while i <= n - m
        invariant
            n == s@.len(),
            m == needle@.len(),
            0 < m <= n,
            forall|j: int| 0 <= j < i ==> !contains_at(s@, needle@, j),
        decreases n - m + 1 - i,
    {
        let piece = s.substring_char(i, i + m);
        if crate::text::same_text(piece, needle) {
            assert(contains_at(s@, needle@, i as int));
            return true;
        }
        i += 1;
    }
    assert forall|j: int| !contains_at(s@, needle@, j) by {
        if 0 <= j && j + m <= n {
            assert(j < i);
        }
    }
    false
}

/// The fixed answer on processors whose virtualization extensions this
/// library does not read.
pub fn check_virtual_support() -> (r: (bool, String, &'static str))
    ensures
        !r.0,
        r.1@ == "N/A"@,
        r.2@ == "Not supported"@,
{
    (false, "N/A".to_owned(), "Not supported")
}

pub open spec fn bit_set(x: u32, b: u32) -> bool {
    x & (1u32 << b) != 0
}

/// Virtualization support from the processor's identification: Intel's
/// VMX (leaf 1, ECX bit 5) or AMD's SVM (leaf 0x80000001, ECX bit 2),
/// chosen by the vendor identifier.
pub fn virtual_support_from_cpuid(vendor_id: String, leaf1_ecx: u32, ext_ecx: u32) -> (r: (
    bool,
    String,
    &'static str,
))
    ensures
        r.1@ == vendor_id@,
        if contains_text(vendor_id@, "GenuineIntel"@) {
            r.0 == bit_set(leaf1_ecx, 5) && r.2@ == "Intel VT-x (VMX)"@
        } else if contains_text(vendor_id@, "AuthenticAMD"@) {
            r.0 == bit_set(ext_ecx, 2) && r.2@ == "AMD-V (SVM)"@
        } else {
            !r.0 && r.2@ == "Unknown"@
        },
{
    if text_contains(vendor_id.as_str(), "GenuineIntel") {
        let vmx = leaf1_ecx & (1u32 << 5u32) != 0;
        (vmx, vendor_id, "Intel VT-x (VMX)")
    } else if text_contains(vendor_id.as_str(), "AuthenticAMD") {
        let svm = ext_ecx & (1u32 << 2u32) != 0;
        (svm, vendor_id, "AMD-V (SVM)")
    } else {
        (false, vendor_id, "Unknown")
    }
}

/// From the hypervisor vendor signature (cpuid leaf 0x40000000, with its NUL
/// padding removed) and ECX of leaf 1: whether Hyper-V is present, and
/// whether the processor reports running as a guest (bit 31).
pub fn hyperv_environment(signature: &str, leaf1_ecx: u32) -> (r: (bool, bool))
    ensures
        r.0 == (has_prefix(signature@, "Microsoft Hv"@) || has_prefix(signature@, "MicrosoftXv"@)),
        r.1 == bit_set(leaf1_ecx, 31),
{
    let present = starts_with_text(signature, "Microsoft Hv") || starts_with_text(
        signature,
        "MicrosoftXv",
    );
    (present, leaf1_ecx & (1u32 << 31u32) != 0)
}

pub open spec fn firmware_line(firmware_enabled: bool, hyperv_present: bool, signature: Seq<char>) -> Seq<char> {
    if firmware_enabled {
        "虚拟化已在固件中启用"@
    } else if hyperv_present {
        "虚拟化检测在 Hypervisor 下失效"@
    } else {
        "虚拟化未在固件中启用或此检查不受支持(CPU Sign: "@
            + signature + ")"@
    }
}

/// The firmware check on Windows: the firmware flag, else a hypervisor that
/// hides it.
pub fn firmware_virtualization_status(
    firmware_enabled: bool,
    hyperv_present: bool,
    signature: &str,
) -> (r: (bool, String))
    ensures
        r.0 == (firmware_enabled || hyperv_present),
        r.1@ == firmware_line(firmware_enabled, hyperv_present, signature@),
{
    if firmware_enabled {
        (true, "虚拟化已在固件中启用".to_owned())
    } else if hyperv_present {
        (true, "虚拟化检测在 Hypervisor 下失效".to_owned())
    } else {
        let mut t =
            "虚拟化未在固件中启用或此检查不受支持(CPU Sign: ".to_owned();
        t.append(signature);
        t.append(")");
        (false, t)
    }
}

/// The API version that the KVM device is expected to report.
pub const KVM_API_VERSION: i32 = 12;

pub open spec fn kvm_line(device_present: bool, opened: Result<i32, String>, errno: i32) -> Seq<char> {
    if !device_present {
        "/dev/kvm 设备文件不存在"@
    } else {
        match opened {
            Err(e) => "无法打开 /dev/kvm: "@ + e@
                + ". 确保有足够权限，且 kvm 内核模块 (kvm_intel 或 kvm_amd) 已加载。"@,
            Ok(v) => if v == KVM_API_VERSION {
                "/dev/kvm 可访问且 API 版本为 12 (预期值)。KVM 已启用。"@
            } else if v >= 0 {
                "/dev/kvm 可访问，API 版本为 "@ + decimal_of(v as int)
                    + "。KVM 可能已启用。"@
            } else {
                "/dev/kvm 打开成功，但 ioctl(KVM_GET_API_VERSION) 失败。错误码: "@
                    + decimal_of(errno as int)
                    + ". KVM 可能未完全启用或权限不足。"@
            },
        }
    }
}

/// The KVM check on Linux: whether `/dev/kvm` exists, the API version that
/// it reported once opened (negative when the ioctl failed, with `errno`),
/// or why it could not be opened.
pub fn check_kvm_status(device_present: bool, opened: Result<i32, String>, errno: i32) -> (r: (
    bool,
    String,
))
    ensures
        r.0 == (device_present && opened is Ok && opened->Ok_0 >= 0),
        r.1@ == kvm_line(device_present, opened, errno),
{
    if !device_present {
        return (false, "/dev/kvm 设备文件不存在".to_owned());
    }
    match opened {
        Err(e) => {
            let mut t = "无法打开 /dev/kvm: ".to_owned();
            t.append(e.as_str());
            t.append(
                ". 确保有足够权限，且 kvm 内核模块 (kvm_intel 或 kvm_amd) 已加载。",
            );
            (false, t)
        },
        Ok(v) => {
            if v == KVM_API_VERSION {
                (
                    true,
                    "/dev/kvm 可访问且 API 版本为 12 (预期值)。KVM 已启用。".to_owned(),
                )
            } else if v >= 0 {
                let mut t = "/dev/kvm 可访问，API 版本为 ".to_owned();
                t.append(signed_decimal_text(v).as_str());
                t.append("。KVM 可能已启用。");
                (true, t)
            } else {
                let mut t =
                    "/dev/kvm 打开成功，但 ioctl(KVM_GET_API_VERSION) 失败。错误码: ".to_owned();
                t.append(signed_decimal_text(errno).as_str());
                t.append(". KVM 可能未完全启用或权限不足。");
                (false, t)
            }
        },
    }
}

pub open spec fn hv_support_line(ret: i32, value: i32, errno: i32) -> Seq<char> {
    if ret != 0 {
        "sysctlbyname 调用失败。错误码: "@ + decimal_of(errno as int)
    } else if value == 1 {
        "kern.hv_support (Hypervisor Framework) 为 1，虚拟化已启用。"@
    } else {
        "kern.hv_support (Hypervisor Framework) 为 "@ + decimal_of(value as int)
            + "，虚拟化未启用或不受支持。"@
    }
}

/// The Hypervisor Framework check on macOS, from the return code of the
/// `kern.hv_support` lookup, the value it read, and `errno`.
pub fn check_hv_support_status(ret: i32, value: i32, errno: i32) -> (r: (bool, String))
    ensures
        r.0 == (ret == 0 && value == 1),
        r.1@ == hv_support_line(ret, value, errno),
{
    if ret != 0 {
        let mut t = "sysctlbyname 调用失败。错误码: ".to_owned();
        t.append(signed_decimal_text(errno).as_str());
        (false, t)
    } else if value == 1 {
        (true, "kern.hv_support (Hypervisor Framework) 为 1，虚拟化已启用。".to_owned())
    } else {
        let mut t = "kern.hv_support (Hypervisor Framework) 为 ".to_owned();
        t.append(signed_decimal_text(value).as_str());
        t.append("，虚拟化未启用或不受支持。");
        (false, t)
    }
}

pub open spec fn overall_line(cpu: bool, os: bool, feature: Seq<char>, details: Seq<char>) -> Seq<char> {
    if cpu && os {
        "CPU 支持虚拟化，并且似乎已在操作系统/固件中启用。"@
    } else if cpu {
        "CPU 支持虚拟化 ("@ + feature
            + ")，但操作系统报告其未启用或无法确认。详情: "@ + details
    } else if os {
        "CPU 不支持虚拟化 ("@ + feature
            + ")，但操作系统报告支持，这常见于运行在虚拟系统下或不支持检测该 CPU。详情："@
            + details
    } else {
        "CPU 不支持虚拟化 ("@ + feature + ")."@
    }
}

/// The one-line summary of the processor and operating-system checks.
pub fn overall_status_message(
    cpu_supported: bool,
    os_enabled: bool,
    feature_name: &str,
    details: &str,
) -> (r: String)
    ensures
        r@ == overall_line(cpu_supported, os_enabled, feature_name@, details@),
{
    if cpu_supported && os_enabled {
        "CPU 支持虚拟化，并且似乎已在操作系统/固件中启用。".to_owned()
    } else if cpu_supported {
        let mut t = "CPU 支持虚拟化 (".to_owned();
        t.append(feature_name);
        t.append(")，但操作系统报告其未启用或无法确认。详情: ");
        t.append(details);
        t
    } else if os_enabled {
        let mut t = "CPU 不支持虚拟化 (".to_owned();
        t.append(feature_name);
        t.append(
            ")，但操作系统报告支持，这常见于运行在虚拟系统下或不支持检测该 CPU。详情：",
        );
        t.append(details);
        t
    } else {
        let mut t = "CPU 不支持虚拟化 (".to_owned();
        t.append(feature_name);
        t.append(").");
        t
    }
}

/// Puts the processor check and the operating-system check together.
pub fn virtualization_info(
    arch: &'static str,
    os: &'static str,
    cpu_supported: bool,
    cpu_feature_name: &'static str,
    os_check: (bool, String),
) -> (r: VirtualizationInfo)
    ensures
        r.arch == arch,
        r.os == os,
        r.cpu_supported == cpu_supported,
        r.cpu_feature_name == cpu_feature_name,
        r.os_reported_enabled == os_check.0,
        r.os_check_details@ == os_check.1@,
        r.overall_status_message@ == overall_line(
            cpu_supported,
            os_check.0,
            cpu_feature_name@,
            os_check.1@,
        ),
{
    let (enabled, details) = os_check;
    let msg = overall_status_message(cpu_supported, enabled, cpu_feature_name, details.as_str());
    VirtualizationInfo {
        arch,
        os,
        cpu_supported,
        cpu_feature_name,
        os_reported_enabled: enabled,
        os_check_details: details,
        overall_status_message: msg,
    }
}

pub open spec fn encoding_of(code: u32) -> Seq<char> {
    if code == 65001 {
        "UTF-8"@
    } else if code == 936 {
        "GBK"@
    } else if code == 950 {
        "BIG5"@
    } else if code == 1252 {
        "WINDOWS-1252"@
    } else if code == 932 {
        "SHIFT-JIS"@
    } else {
        "UNKNOWN"@
    }
}

/// The name of the encoding of a Windows code page.
pub fn encoding_name(code: u32) -> (r: &'static str)
    ensures
        r@ == encoding_of(code),
{
    match code {
        65001 => "UTF-8",
        936 => "GBK",
        950 => "BIG5",
        1252 => "WINDOWS-1252",
        932 => "SHIFT-JIS",
        _ => "UNKNOWN",
    }
}

/// The encodings of the ANSI and the OEM code page.
pub fn system_encoding(ansi_code: u32, oem_code: u32) -> (r: SystemEncoding)
    ensures
        r.ansi_code == ansi_code,
        r.oem_code == oem_code,
        r.ansi_encoding@ == encoding_of(ansi_code),
        r.oem_encoding@ == encoding_of(oem_code),
{
    SystemEncoding {
        ansi_code,
        oem_code,
        ansi_encoding: encoding_name(ansi_code),
        oem_encoding: encoding_name(oem_code),
    }
}

pub open spec fn apartment_line(apt: i32) -> Seq<char> {
    if apt == 0 {
        "STA (Single-Threaded Apartment)"@
    } else if apt == 1 {
        "MTA (Multi-Threaded Apartment)"@
    } else if apt == 2 {
        "NA (Neutral Apartment)"@
    } else {
        "Unknown Apartment Type ("@ + decimal_of(apt as int) + ")"@
    }
}

/// Describes the COM apartment type of the current thread.
pub fn apartment_description(apt: i32) -> (r: String)
    ensures
        r@ == apartment_line(apt),
{
    if apt == 0 {
        "STA (Single-Threaded Apartment)".to_owned()
    } else if apt == 1 {
        "MTA (Multi-Threaded Apartment)".to_owned()
    } else if apt == 2 {
        "NA (Neutral Apartment)".to_owned()
    } else {
        let mut t = "Unknown Apartment Type (".to_owned();
        t.append(signed_decimal_text(apt).as_str());
        t.append(")");
        t
    }
}

} // verus!
