//! The fingerprint assembler: factors from the hardware records, their
//! ordered set, and the digest over its canonical text.
use vstd::prelude::*;
use vstd::utf8::encode_utf8;
use crate::encode::{
    decimal_text, digits_of, hex_of, is_hex_text, lemma_hex_of, sha256, sha256_of, to_hex,
};
use crate::factor_set::{
    join_factors, join_with, lemma_ordered_set, ordered_factor_set, ordered_set_of, strictly_sorted,
    views,
};
use crate::records::{BaseBoard, DiskDrive, DiskPartition, Processor, VideoController};
use crate::text::{opt_chars, sanitize_string, sanitized, starts_with_text};

verus! {

/// A category of hardware that may contribute to the fingerprint.
#[derive(Debug, Clone, Copy, PartialEq, Eq, Structural)]
pub enum MachineIdFactor {
    Baseboard,
    Processor,
    DiskDrivers,
    VideoControllers,
}

/// Why a fingerprint could not be produced.
#[derive(Debug, Clone, PartialEq, Eq)]
pub enum MachineIdError {
    WMIInitialization(String),
    ChannelSend(String),
    ChannelRecv(String),
    QueryError(String),
    WorkerThreadPanicked(String),
    NoFactorsFound,
}

/// What the backend reported for each category, as the assembler reads it.
#[derive(Debug, Clone)]
pub struct HardwareRecords {
    pub board: Option<BaseBoard>,
    pub processor: Option<Processor>,
    pub partitions: Vec<DiskPartition>,
    pub drives: Vec<DiskDrive>,
    pub video_controllers: Vec<VideoController>,
}

/// The factor for one field: its tag and sanitized value, or nothing when
/// the sanitizer drops the value.
pub open spec fn factor_of(tag: Seq<char>, raw: Option<Seq<char>>) -> Seq<Seq<char>> {
    match sanitized(raw) {
        Some(v) => seq![tag + v],
        None => Seq::empty(),
    }
}

pub open spec fn board_factors(b: Option<BaseBoard>) -> Seq<Seq<char>> {
    match b {
        None => Seq::empty(),
        Some(b) => factor_of("bios_manufacturer:"@, opt_chars(b.manufacturer)) + factor_of(
            "bios_model:"@,
            opt_chars(b.product),
        ) + factor_of("bios_serial:"@, opt_chars(b.serial_number)),
    }
}

pub open spec fn processor_factors(p: Option<Processor>) -> Seq<Seq<char>> {
    match p {
        None => Seq::empty(),
        Some(p) => factor_of("cpu_name:"@, opt_chars(p.name)) + factor_of(
            "cpu_id:"@,
            opt_chars(p.processor_id),
        ),
    }
}

/// The system disk is the disk of the first boot partition.
pub open spec fn system_disk_of(parts: Seq<DiskPartition>) -> Option<u32> {
    if parts.len() == 0 {
        None
    } else {
        Some(parts[0].disk_index)
    }
}

/// The first drive with the given index.
pub open spec fn drive_with_index(drives: Seq<DiskDrive>, index: u32) -> Option<DiskDrive>
    decreases drives.len(),
{
    if drives.len() == 0 {
        None
    } else if drives[0].index == index {
        Some(drives[0])
    } else {
        drive_with_index(drives.drop_first(), index)
    }
}

pub open spec fn drive_factors(d: DiskDrive) -> Seq<Seq<char>> {
    factor_of("disk_model:"@, opt_chars(d.model)) + factor_of(
        "disk_serial:"@,
        opt_chars(d.serial_number),
    )
}

/// Factors of the system disk alone; other drives never contribute.
pub open spec fn disk_factors(parts: Seq<DiskPartition>, drives: Seq<DiskDrive>) -> Seq<
    Seq<char>,
> {
    match system_disk_of(parts) {
        None => Seq::empty(),
        Some(k) => match drive_with_index(drives, k) {
            None => Seq::empty(),
            Some(d) => drive_factors(d),
        },
    }
}

/// Whether a device identifier names a device on the PCI bus: its
/// sanitized form begins with `pci\ven_`.
pub open spec fn is_pci_device(pnp: Option<Seq<char>>) -> bool {
    match sanitized(pnp) {
        None => false,
        Some(p) => 8 <= p.len() && p.subrange(0, 8) == "pci\\ven_"@,
    }
}

pub open spec fn gpu_tag(i: nat, field: Seq<char>) -> Seq<char> {
    "gpu"@ + digits_of(i) + field
}

/// The tagged sub-values of the adapter with index `i`, in sorted order.
pub open spec fn gpu_parts(i: nat, vc: VideoController) -> Seq<Seq<char>> {
    factor_of(gpu_tag(i, "_manufacturer:"@), opt_chars(vc.adapter_compatibility)) + factor_of(
        gpu_tag(i, "_model:"@),
        opt_chars(vc.name),
    ) + factor_of(gpu_tag(i, "_pnp_id:"@), opt_chars(vc.pnp_device_id))
}

/// One composite factor for a PCI adapter with at least one sub-value;
/// nothing for any other adapter.
pub open spec fn gpu_factor(i: nat, vc: VideoController) -> Seq<Seq<char>> {
    if !is_pci_device(opt_chars(vc.pnp_device_id)) || gpu_parts(i, vc).len() == 0 {
        Seq::empty()
    } else {
        seq![join_with(gpu_parts(i, vc), ';')]
    }
}

pub open spec fn gpus_factors(g: Seq<VideoController>) -> Seq<Seq<char>>
    decreases g.len(),
{
    if g.len() == 0 {
        Seq::empty()
    } else {
        gpus_factors(g.drop_last()) + gpu_factor((g.len() - 1) as nat, g.last())
    }
}

/// Every factor that the selected categories produce, in query order.
pub open spec fn collected_factors(sel: Seq<MachineIdFactor>, r: HardwareRecords) -> Seq<
    Seq<char>,
> {
    (if sel.contains(MachineIdFactor::Baseboard) {
        board_factors(r.board)
    } else {
        Seq::empty()
    }) + (if sel.contains(MachineIdFactor::Processor) {
        processor_factors(r.processor)
    } else {
        Seq::empty()
    }) + (if sel.contains(MachineIdFactor::DiskDrivers) {
        disk_factors(r.partitions@, r.drives@)
    } else {
        Seq::empty()
    }) + (if sel.contains(MachineIdFactor::VideoControllers) {
        gpus_factors(r.video_controllers@)
    } else {
        Seq::empty()
    })
}

/// The identifier of an ordered factor set: the hexadecimal SHA-256 digest
/// of its factors joined with `|`.
pub open spec fn machine_id_of(factors: Seq<Seq<char>>) -> Seq<char> {
    hex_of(sha256_of(encode_utf8(join_with(factors, '|'))))
}

/// The fingerprint that the records give for the selected categories.
pub open spec fn fingerprint_spec(sel: Seq<MachineIdFactor>, r: HardwareRecords) -> Result<
    (Seq<char>, Seq<Seq<char>>),
    MachineIdError,
> {
    let fs = ordered_set_of(collected_factors(sel, r));
    if fs.len() == 0 {
        Err(MachineIdError::NoFactorsFound)
    } else {
        Ok((machine_id_of(fs), fs))
    }
}

pub open spec fn fingerprint_view(r: Result<(String, Vec<String>), MachineIdError>) -> Result<
    (Seq<char>, Seq<Seq<char>>),
    MachineIdError,
> {
    match r {
        Ok((id, fs)) => Ok((id@, views(fs@))),
        Err(e) => Err(e),
    }
}

fn clone_text(o: &Option<String>) -> (r: Option<String>)
    ensures
        opt_chars(r) == opt_chars(*o),
{
    match o {
        Some(s) => Some(s.clone()),
        None => None,
    }
}

/// Appends the factor of one field to `out`.
fn push_factor(out: &mut Vec<String>, tag: &str, raw: &Option<String>)
    ensures
        views(final(out)@) == views(old(out)@) + factor_of(tag@, opt_chars(*raw)),
{
    match sanitize_string(clone_text(raw)) {
        Some(v) => {
            let mut f = tag.to_owned();
            f.append(v.as_str());
            let ghost before = out@;
            out.push(f);
            proof {
                assert(views(out@) =~= views(before) + seq![f@]);
            }
        },
        None => {
            assert(views(out@) =~= views(out@) + Seq::<Seq<char>>::empty());
        },
    }
}

fn push_board_factors(out: &mut Vec<String>, board: &Option<BaseBoard>)
    ensures
        views(final(out)@) == views(old(out)@) + board_factors(*board),
{
    proof {
        reveal_strlit("bios_manufacturer:");
        reveal_strlit("bios_model:");
        reveal_strlit("bios_serial:");
    }
    match board {
        None => {
            assert(views(out@) =~= views(out@) + Seq::<Seq<char>>::empty());
        },
        Some(b) => {
            let ghost v0 = views(out@);
            push_factor(out, "bios_manufacturer:", &b.manufacturer);
            push_factor(out, "bios_model:", &b.product);
            push_factor(out, "bios_serial:", &b.serial_number);
            assert(views(out@) =~= v0 + board_factors(*board));
        },
    }
}

fn push_processor_factors(out: &mut Vec<String>, cpu: &Option<Processor>)
    ensures
        views(final(out)@) == views(old(out)@) + processor_factors(*cpu),
{
    match cpu {
        None => {
            assert(views(out@) =~= views(out@) + Seq::<Seq<char>>::empty());
        },
        Some(p) => {
            let ghost v0 = views(out@);
            push_factor(out, "cpu_name:", &p.name);
            push_factor(out, "cpu_id:", &p.processor_id);
            assert(views(out@) =~= v0 + processor_factors(*cpu));
        },
    }
}

/// The disk index of the first boot partition, which marks the system disk.
pub fn system_disk_index(partitions: &Vec<DiskPartition>) -> (r: Option<u32>)
    ensures
        r == system_disk_of(partitions@),
{
    if partitions.len() == 0 {
        None
    } else {
        Some(partitions[0].disk_index)
    }
}

/// The position of the first drive with the given index.
fn find_drive(drives: &Vec<DiskDrive>, index: u32) -> (r: Option<usize>)
    ensures
        match r {
            None => drive_with_index(drives@, index).is_none(),
            Some(i) => i < drives@.len() && drive_with_index(drives@, index) == Some(
                drives@[i as int],
            ),
        },
{
    let mut i: usize = 0;
    assert(drives@.skip(0) =~= drives@);
    while i < drives.len()
        invariant
            i <= drives@.len(),
            drive_with_index(drives@, index) == drive_with_index(drives@.skip(i as int), index),
        decreases drives@.len() - i,
    {
        proof {
            assert(drives@.skip(i as int).drop_first() =~= drives@.skip(i + 1));
        }
        if drives[i].index == index {
            return Some(i);
        }
        i += 1;
    }
    None
}

fn push_disk_factors(out: &mut Vec<String>, partitions: &Vec<DiskPartition>, drives: &Vec<DiskDrive>)
    ensures
        views(final(out)@) == views(old(out)@) + disk_factors(partitions@, drives@),
{
    let ghost v0 = views(out@);
    match system_disk_index(partitions) {
        None => {
            assert(views(out@) =~= v0 + Seq::<Seq<char>>::empty());
        },
        Some(k) => match find_drive(drives, k) {
            None => {
                assert(views(out@) =~= v0 + Seq::<Seq<char>>::empty());
            },
            Some(i) => {
                let d = &drives[i];
                push_factor(out, "disk_model:", &d.model);
                push_factor(out, "disk_serial:", &d.serial_number);
                assert(views(out@) =~= v0 + drive_factors(*d));
            },
        },
    }
}

/// Whether an adapter's device identifier names a PCI bus device.
pub fn is_pci_adapter(pnp_device_id: &Option<String>) -> (r: bool)
    ensures
        r == is_pci_device(opt_chars(*pnp_device_id)),
{
    match sanitize_string(clone_text(pnp_device_id)) {
        None => false,
        Some(p) => {
            proof {
                reveal_strlit("pci\\ven_");
            }
            starts_with_text(p.as_str(), "pci\\ven_")
        },
    }
}

fn gpu_tag_text(i: usize, field: &str) -> (r: String)
    ensures
        r@ == gpu_tag(i as nat, field@),
{
    proof {
        reveal_strlit("gpu");
    }
    let mut t = "gpu".to_owned();
    let d = decimal_text(i as u64);
    t.append(d.as_str());
    t.append(field);
    t
}

/// The composite factor of the adapter with index `i`, if it contributes one.
pub fn gpu_factor_text(i: usize, vc: &VideoController) -> (r: Option<String>)
    ensures
        match r {
            None => gpu_factor(i as nat, *vc).len() == 0,
            Some(f) => gpu_factor(i as nat, *vc) == seq![f@],
        },
{
    if !is_pci_adapter(&vc.pnp_device_id) {
        return None;
    }
    let mut parts: Vec<String> = Vec::new();
    let t = gpu_tag_text(i, "_manufacturer:");
    push_factor(&mut parts, t.as_str(), &vc.adapter_compatibility);
    let t = gpu_tag_text(i, "_model:");
    push_factor(&mut parts, t.as_str(), &vc.name);
    let t = gpu_tag_text(i, "_pnp_id:");
    push_factor(&mut parts, t.as_str(), &vc.pnp_device_id);
    assert(views(parts@) =~= gpu_parts(i as nat, *vc));
    if parts.len() == 0 {
        return None;
    }
    proof {
        reveal_strlit(";");
    }
    Some(join_factors(&parts, ";"))
}

fn push_gpu_factors(out: &mut Vec<String>, gpus: &Vec<VideoController>)
    ensures
        views(final(out)@) == views(old(out)@) + gpus_factors(gpus@),
{
    let ghost v0 = views(out@);
    let mut i: usize = 0;
    assert(gpus@.take(0) =~= Seq::<VideoController>::empty());
    assert(v0 =~= v0 + Seq::<Seq<char>>::empty());
    while i < gpus.len()
        invariant
            i <= gpus@.len(),
            views(out@) == v0 + gpus_factors(gpus@.take(i as int)),
        decreases gpus@.len() - i,
    {
        let ghost before = views(out@);
        proof {
            let t = gpus@.take(i + 1);
            assert(t.drop_last() =~= gpus@.take(i as int));
            assert(t.last() == gpus@[i as int]);
        }
        match gpu_factor_text(i, &gpus[i]) {
            Some(f) => {
                out.push(f);
                assert(views(out@) =~= before + gpu_factor(i as nat, gpus@[i as int]));
            },
            None => {
                assert(views(out@) =~= before + gpu_factor(i as nat, gpus@[i as int]));
            },
        }
        assert(views(out@) =~= v0 + gpus_factors(gpus@.take(i + 1)));
        i += 1;
    }
    assert(gpus@.take(gpus@.len() as int) =~= gpus@);
}

/// Whether `kind` is among the selected categories.
pub fn is_selected(selected: &Vec<MachineIdFactor>, kind: MachineIdFactor) -> (r: bool)
    ensures
        r == selected@.contains(kind),
{
    let mut i: usize = 0;
    while i < selected.len()
        invariant
            i <= selected@.len(),
            forall|j: int| 0 <= j < i ==> selected@[j] != kind,
        decreases selected@.len() - i,
    {
        if selected[i] == kind {
            return true;
        }
        i += 1;
    }
    false
}

/// Every factor that the selected categories produce, in query order.
pub fn collect_factors(selected: &Vec<MachineIdFactor>, records: &HardwareRecords) -> (r: Vec<
    String,
>)
    ensures
        views(r@) == collected_factors(selected@, *records),
{
    let mut out: Vec<String> = Vec::new();
    let ghost e = Seq::<Seq<char>>::empty();
    assert(views(out@) =~= e);
    if is_selected(selected, MachineIdFactor::Baseboard) {
        push_board_factors(&mut out, &records.board);
    }
    let ghost v1 = views(out@);
    if is_selected(selected, MachineIdFactor::Processor) {
        push_processor_factors(&mut out, &records.processor);
    } else {
        assert(views(out@) =~= v1 + e);
    }
    let ghost v2 = views(out@);
    if is_selected(selected, MachineIdFactor::DiskDrivers) {
        push_disk_factors(&mut out, &records.partitions, &records.drives);
    } else {
        assert(views(out@) =~= v2 + e);
    }
    let ghost v3 = views(out@);
    if is_selected(selected, MachineIdFactor::VideoControllers) {
        push_gpu_factors(&mut out, &records.video_controllers);
    } else {
        assert(views(out@) =~= v3 + e);
    }
    assert(views(out@) =~= collected_factors(selected@, *records));
    out
}

/// The identifier of an ordered factor set.
pub fn machine_id_from_factors(factors: &Vec<String>) -> (r: String)
    ensures
        r@ == machine_id_of(views(factors@)),
        r@.len() == 64,
        is_hex_text(r@),
{
    proof {
        reveal_strlit("|");
    }
    let canonical = join_factors(factors, "|");
    let digest = sha256(canonical.as_str().as_bytes());
    proof {
        lemma_hex_of(digest@);
    }
    to_hex(digest.as_slice())
}

/// Computes the fingerprint of the selected categories from the records
/// that the backend reported: the identifier and the ordered factor set,
/// or `NoFactorsFound` when no factor survives.
pub fn fingerprint_from_records(selected: &Vec<MachineIdFactor>, records: &HardwareRecords) -> (r:
    Result<(String, Vec<String>), MachineIdError>)
    ensures
        fingerprint_view(r) == fingerprint_spec(selected@, *records),
        r is Ok ==> r->Ok_0.0@.len() == 64 && is_hex_text(r->Ok_0.0@),
        r is Ok ==> strictly_sorted(views(r->Ok_0.1@)),
        r is Ok ==> forall|y: Seq<char>|
            #[trigger] views(r->Ok_0.1@).contains(y) <==> collected_factors(selected@, *records).contains(y),
{
    proof {
        lemma_ordered_set(collected_factors(selected@, *records));
    }
    let all = collect_factors(selected, records);
    let factors = ordered_factor_set(all);
    if factors.len() == 0 {
        return Err(MachineIdError::NoFactorsFound);
    }
    let id = machine_id_from_factors(&factors);
    Ok((id, factors))
}

/// The outcome of a fingerprint request as the host receives it.
#[derive(Debug, Clone)]
pub struct MachineIdResult {
    pub machine_id: Option<String>,
    pub error: Option<String>,
    pub factors: Vec<String>,
}

pub open spec fn error_text(e: MachineIdError) -> Seq<char> {
    match e {
        MachineIdError::WMIInitialization(s) => "WMI Initialization Error: "@ + s@,
        MachineIdError::ChannelSend(s) => "Channel Send Error: "@ + s@,
        MachineIdError::ChannelRecv(s) => "Channel Receive Error: "@ + s@,
        MachineIdError::QueryError(s) => "WMI Query Error: "@ + s@,
        MachineIdError::WorkerThreadPanicked(s) => "Worker thread panicked: "@ + s@,
        MachineIdError::NoFactorsFound => "Could not gather any hardware factors"@,
    }
}

impl MachineIdError {
    /// The error as one line of text.
    pub fn message(&self) -> (r: String)
        ensures
            r@ == error_text(*self),
    {
        let (head, detail) = match self {
            MachineIdError::WMIInitialization(s) => ("WMI Initialization Error: ", s.as_str()),
            MachineIdError::ChannelSend(s) => ("Channel Send Error: ", s.as_str()),
            MachineIdError::ChannelRecv(s) => ("Channel Receive Error: ", s.as_str()),
            MachineIdError::QueryError(s) => ("WMI Query Error: ", s.as_str()),
            MachineIdError::WorkerThreadPanicked(s) => ("Worker thread panicked: ", s.as_str()),
            MachineIdError::NoFactorsFound => ("Could not gather any hardware factors", ""),
        };
        let mut t = head.to_owned();
        t.append(detail);
        proof {
            reveal_strlit("");
        }
        t
    }
}

/// Turns a fingerprint outcome into the host's record: the id and the
/// factors, or the error text and no factors.
pub fn machine_id_result(r: Result<(String, Vec<String>), MachineIdError>) -> (m: MachineIdResult)
    ensures
        match r {
            Ok((id, fs)) => opt_chars(m.machine_id) == Some(id@) && m.error is None
                && views(m.factors@) == views(fs@),
            Err(e) => m.machine_id is None && opt_chars(m.error) == Some(error_text(e))
                && m.factors@.len() == 0,
        },
{
    match r {
        Ok((id, fs)) => MachineIdResult { machine_id: Some(id), error: None, factors: fs },
        Err(e) => MachineIdResult { machine_id: None, error: Some(e.message()), factors: Vec::new() },
    }
}

} // verus!
