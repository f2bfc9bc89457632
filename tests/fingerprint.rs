use machine_probe::encode::to_hex;
use machine_probe::fingerprint::{
    fingerprint_from_records, gpu_factor_text, machine_id_from_factors, machine_id_result,
    system_disk_index, HardwareRecords, MachineIdError, MachineIdFactor,
};
use machine_probe::records::{BaseBoard, DiskDrive, DiskPartition, Processor, VideoController};
use machine_probe::text::sanitize_string;

fn s(v: &str) -> Option<String> {
    Some(v.to_string())
}

fn all_categories() -> Vec<MachineIdFactor> {
    vec![
        MachineIdFactor::Baseboard,
        MachineIdFactor::Processor,
        MachineIdFactor::DiskDrivers,
        MachineIdFactor::VideoControllers,
    ]
}

fn sample_records(serial: &str) -> HardwareRecords {
    HardwareRecords {
        board: Some(BaseBoard {
            manufacturer: s("ASUSTeK COMPUTER INC."),
            product: s("PRIME B450M-A"),
            serial_number: s("To be filled by O.E.M."),
        }),
        processor: Some(Processor {
            name: s("AMD Ryzen 5 3600"),
            processor_id: s("178BFBFF00870F10"),
        }),
        partitions: vec![DiskPartition { disk_index: 0 }],
        drives: vec![DiskDrive { serial_number: s(serial), model: s("Samsung SSD 970"), index: 0 }],
        video_controllers: vec![VideoController {
            name: s("NVIDIA GeForce GTX 1660"),
            adapter_compatibility: s("NVIDIA"),
            pnp_device_id: s("PCI\\VEN_10DE&DEV_2184"),
        }],
    }
}

fn empty_records() -> HardwareRecords {
    HardwareRecords {
        board: None,
        processor: None,
        partitions: vec![],
        drives: vec![],
        video_controllers: vec![],
    }
}

#[test]
fn sanitizer_drops_placeholders() {
    assert_eq!(sanitize_string(s("  To Be Filled By O.E.M.  ")), None);
    assert_eq!(sanitize_string(s("Default String")), None);
    assert_eq!(sanitize_string(s("NONE")), None);
    assert_eq!(sanitize_string(s(" 00000000 ")), None);
    assert_eq!(sanitize_string(s("O.E.M.")), None);
    assert_eq!(sanitize_string(s("   ")), None);
    assert_eq!(sanitize_string(s("")), None);
    assert_eq!(sanitize_string(s("\t\n\u{3000}\u{a0}")), None);
    assert_eq!(sanitize_string(None), None);
}

#[test]
fn sanitizer_trims_and_lowercases() {
    assert_eq!(sanitize_string(s("  Intel Core i7\t")), s("intel core i7"));
    assert_eq!(sanitize_string(s("WD-WX12")), s("wd-wx12"));
    assert_eq!(sanitize_string(s("none of these")), s("none of these"));
}

#[test]
fn to_hex_renders_each_byte() {
    assert_eq!(to_hex(&[0x00, 0x0f, 0xa5, 0xff]), "000fa5ff");
    assert_eq!(to_hex(&[]), "");
}

#[test]
fn machine_id_is_sha256_hex_of_joined_factors() {
    let id = machine_id_from_factors(&vec!["a".to_string()]);
    assert_eq!(id, "ca978112ca1bbdcafac231b39a23dc4da786eff8147c4e72b9807785afee48bb");
    let id = machine_id_from_factors(&vec!["a".to_string(), "b".to_string(), "c".to_string()]);
    // digest of "a|b|c"
    let joined = machine_id_from_factors(&vec!["a|b|c".to_string()]);
    assert_eq!(id, joined);
    assert_eq!(id.len(), 64);
    assert!(id.chars().all(|c| c.is_ascii_hexdigit() && !c.is_ascii_uppercase()));
}

#[test]
fn fingerprint_collects_sorted_factors() {
    let (id, factors) = fingerprint_from_records(&all_categories(), &sample_records("S3EVNX0M")).unwrap();
    assert_eq!(
        factors,
        vec![
            "bios_manufacturer:asustek computer inc.".to_string(),
            "bios_model:prime b450m-a".to_string(),
            "cpu_id:178bfbff00870f10".to_string(),
            "cpu_name:amd ryzen 5 3600".to_string(),
            "disk_model:samsung ssd 970".to_string(),
            "disk_serial:s3evnx0m".to_string(),
            "gpu0_manufacturer:nvidia;gpu0_model:nvidia geforce gtx 1660;gpu0_pnp_id:pci\\ven_10de&dev_2184"
                .to_string(),
        ]
    );
    assert_eq!(id, machine_id_from_factors(&factors));
    assert_eq!(id.len(), 64);
}

#[test]
fn fingerprint_is_deterministic() {
    let a = fingerprint_from_records(&all_categories(), &sample_records("S3EVNX0M"));
    let b = fingerprint_from_records(&all_categories(), &sample_records("S3EVNX0M"));
    assert_eq!(a, b);
}

#[test]
fn fingerprint_changes_with_disk_serial() {
    let (a, _) = fingerprint_from_records(&all_categories(), &sample_records("S3EVNX0M")).unwrap();
    let (b, _) = fingerprint_from_records(&all_categories(), &sample_records("S3EVNX0N")).unwrap();
    assert_ne!(a, b);
}

#[test]
fn fingerprint_ignores_case_and_surrounding_space() {
    let (a, fa) = fingerprint_from_records(&all_categories(), &sample_records("S3EVNX0M")).unwrap();
    let (b, fb) = fingerprint_from_records(&all_categories(), &sample_records("  s3evnx0m ")).unwrap();
    assert_eq!(a, b);
    assert_eq!(fa, fb);
}

#[test]
fn pci_test_ignores_case_and_space_of_device_id() {
    let mut a = sample_records("S3EVNX0M");
    let mut b = sample_records("S3EVNX0M");
    a.video_controllers[0].pnp_device_id = s("  pci\\ven_10de&dev_2184 ");
    b.video_controllers[0].pnp_device_id = s("PCI\\VEN_10DE&DEV_2184");
    let ra = fingerprint_from_records(&all_categories(), &a);
    let rb = fingerprint_from_records(&all_categories(), &b);
    assert_eq!(ra, rb);
    let mut only_gpu = empty_records();
    only_gpu.video_controllers = a.video_controllers;
    let (_, factors) =
        fingerprint_from_records(&vec![MachineIdFactor::VideoControllers], &only_gpu).unwrap();
    assert_eq!(factors.len(), 1);
}

#[test]
fn only_the_system_disk_contributes() {
    let mut r = empty_records();
    r.partitions = vec![DiskPartition { disk_index: 1 }, DiskPartition { disk_index: 2 }];
    r.drives = vec![
        DiskDrive { serial_number: s("SERIAL-ONE"), model: s("Model One"), index: 1 },
        DiskDrive { serial_number: s("SERIAL-TWO"), model: s("Model Two"), index: 2 },
    ];
    assert_eq!(system_disk_index(&r.partitions), Some(1));
    let (_, factors) = fingerprint_from_records(&vec![MachineIdFactor::DiskDrivers], &r).unwrap();
    assert_eq!(factors, vec!["disk_model:model one".to_string(), "disk_serial:serial-one".to_string()]);
}

#[test]
fn no_boot_partition_means_no_disk_factor() {
    let mut r = empty_records();
    r.drives = vec![DiskDrive { serial_number: s("SERIAL-ONE"), model: s("Model One"), index: 0 }];
    assert_eq!(system_disk_index(&r.partitions), None);
    assert_eq!(
        fingerprint_from_records(&vec![MachineIdFactor::DiskDrivers], &r),
        Err(MachineIdError::NoFactorsFound)
    );
}

#[test]
fn non_pci_adapter_contributes_nothing() {
    let vc = VideoController {
        name: s("Microsoft Basic Display Adapter"),
        adapter_compatibility: s("Microsoft"),
        pnp_device_id: s("ROOT\\BasicDisplay\\0000"),
    };
    assert_eq!(gpu_factor_text(0, &vc), None);
    let none = VideoController { name: s("x"), adapter_compatibility: s("y"), pnp_device_id: None };
    assert_eq!(gpu_factor_text(0, &none), None);
}

#[test]
fn pci_adapter_contributes_one_sorted_composite() {
    let vc = VideoController {
        name: s("Radeon RX 580"),
        adapter_compatibility: s("Advanced Micro Devices, Inc."),
        pnp_device_id: s("PCI\\VEN_1002&DEV_67DF"),
    };
    assert_eq!(
        gpu_factor_text(12, &vc),
        s("gpu12_manufacturer:advanced micro devices, inc.;gpu12_model:radeon rx 580;gpu12_pnp_id:pci\\ven_1002&dev_67df")
    );
    let partial = VideoController { name: s("Default String"), adapter_compatibility: None, pnp_device_id: s("PCI\\VEN_8086") };
    assert_eq!(gpu_factor_text(1, &partial), s("gpu1_pnp_id:pci\\ven_8086"));
}

#[test]
fn empty_records_give_no_factors_found() {
    assert_eq!(
        fingerprint_from_records(&all_categories(), &empty_records()),
        Err(MachineIdError::NoFactorsFound)
    );
    let mut r = empty_records();
    r.board = Some(BaseBoard { manufacturer: s("Default string"), product: s(" "), serial_number: None });
    assert_eq!(fingerprint_from_records(&all_categories(), &r), Err(MachineIdError::NoFactorsFound));
    assert_eq!(
        fingerprint_from_records(&vec![], &sample_records("S3EVNX0M")),
        Err(MachineIdError::NoFactorsFound)
    );
}

#[test]
fn unselected_categories_are_left_out() {
    let (_, factors) = fingerprint_from_records(&vec![MachineIdFactor::Processor], &sample_records("X")).unwrap();
    assert_eq!(factors, vec!["cpu_id:178bfbff00870f10".to_string(), "cpu_name:amd ryzen 5 3600".to_string()]);
}

#[test]
fn repeated_selection_counts_once() {
    let mut r = empty_records();
    r.video_controllers = vec![
        VideoController { name: s("A"), adapter_compatibility: None, pnp_device_id: s("PCI\\VEN_1") },
        VideoController { name: s("B"), adapter_compatibility: None, pnp_device_id: s("USB\\VEN_1") },
    ];
    r.board = Some(BaseBoard { manufacturer: s("X"), product: s("X"), serial_number: None });
    let (_, factors) = fingerprint_from_records(&vec![MachineIdFactor::Baseboard, MachineIdFactor::Baseboard, MachineIdFactor::VideoControllers], &r).unwrap();
    assert_eq!(
        factors,
        vec![
            "bios_manufacturer:x".to_string(),
            "bios_model:x".to_string(),
            "gpu0_model:a;gpu0_pnp_id:pci\\ven_1".to_string(),
        ]
    );
}

#[test]
fn error_messages_and_host_result() {
    assert_eq!(MachineIdError::NoFactorsFound.message(), "Could not gather any hardware factors");
    assert_eq!(MachineIdError::QueryError("x".to_string()).message(), "WMI Query Error: x");
    assert_eq!(MachineIdError::WMIInitialization("y".to_string()).message(), "WMI Initialization Error: y");
    assert_eq!(MachineIdError::ChannelSend("a".to_string()).message(), "Channel Send Error: a");
    assert_eq!(MachineIdError::ChannelRecv("b".to_string()).message(), "Channel Receive Error: b");
    assert_eq!(MachineIdError::WorkerThreadPanicked("c".to_string()).message(), "Worker thread panicked: c");
    let m = machine_id_result(Err(MachineIdError::NoFactorsFound));
    assert_eq!(m.machine_id, None);
    assert_eq!(m.error, s("Could not gather any hardware factors"));
    assert!(m.factors.is_empty());
    let m = machine_id_result(Ok(("abc".to_string(), vec!["f".to_string()])));
    assert_eq!(m.machine_id, s("abc"));
    assert_eq!(m.error, None);
    assert_eq!(m.factors, vec!["f".to_string()]);
}
