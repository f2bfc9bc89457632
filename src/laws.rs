//! Properties that relate several calls or hold of every input, proved over
//! the specifications that the functions' contracts use.
use vstd::prelude::*;
use crate::encode::digits_of;
use crate::factor_set::{
    insert_sorted, join_with, lemma_lex_first_difference, lemma_ordered_set, lex_lt, ordered_set_of,
    strictly_sorted,
};
use crate::fingerprint::{
    board_factors, collected_factors, disk_factors, drive_with_index, factor_of,
    fingerprint_spec, gpu_factor, gpu_parts, gpu_tag, gpus_factors, is_pci_device, processor_factors,
    system_disk_of, HardwareRecords, MachineIdError, MachineIdFactor,
};
use crate::records::{BaseBoard, DiskDrive, Processor, VideoController};
use crate::probe::{chain_outcome, first_confirmed_at, lines_of, none_confirmed, Attempt};
use crate::query::{
    response_for, worker_transition, QueryRequest, QueryResponse, WorkerAction, WorkerEvent,
    WorkerState,
};
use crate::text::{is_placeholder, lower_of, normalized, opt_chars, sanitized, trim_of};

verus! {

/// Two raw field values that the sanitizer cannot tell apart.
pub open spec fn same_sanitized(a: Option<String>, b: Option<String>) -> bool {
    sanitized(opt_chars(a)) == sanitized(opt_chars(b))
}

pub open spec fn boards_agree(a: Option<BaseBoard>, b: Option<BaseBoard>, f: spec_fn(Option<String>, Option<String>) -> bool) -> bool {
    match (a, b) {
        (None, None) => true,
        (Some(x), Some(y)) => f(x.manufacturer, y.manufacturer) && f(x.product, y.product) && f(
            x.serial_number,
            y.serial_number,
        ),
        _ => false,
    }
}

pub open spec fn processors_agree(a: Option<Processor>, b: Option<Processor>, f: spec_fn(Option<String>, Option<String>) -> bool) -> bool {
    match (a, b) {
        (None, None) => true,
        (Some(x), Some(y)) => f(x.name, y.name) && f(x.processor_id, y.processor_id),
        _ => false,
    }
}

pub open spec fn drives_agree(a: Seq<DiskDrive>, b: Seq<DiskDrive>, f: spec_fn(Option<String>, Option<String>) -> bool) -> bool {
    a.len() == b.len() && forall|i: int|
        0 <= i < a.len() ==> (#[trigger] a[i]).index == b[i].index && f(a[i].model, b[i].model)
            && f(a[i].serial_number, b[i].serial_number)
}

pub open spec fn gpus_agree(a: Seq<VideoController>, b: Seq<VideoController>, f: spec_fn(Option<String>, Option<String>) -> bool) -> bool {
    a.len() == b.len() && forall|i: int|
        0 <= i < a.len() ==> f(
            (#[trigger] a[i]).adapter_compatibility,
            b[i].adapter_compatibility,
        ) && f(a[i].name, b[i].name) && f(a[i].pnp_device_id, b[i].pnp_device_id)
}

/// Two sets of records whose corresponding fields are related by `f`, with
/// the same partitions and disk indexes.
pub open spec fn records_agree(a: HardwareRecords, b: HardwareRecords, f: spec_fn(Option<String>, Option<String>) -> bool) -> bool {
    &&& boards_agree(a.board, b.board, f)
    &&& processors_agree(a.processor, b.processor, f)
    &&& a.partitions@ == b.partitions@
    &&& drives_agree(a.drives@, b.drives@, f)
    &&& gpus_agree(a.video_controllers@, b.video_controllers@, f)
}

proof fn lemma_drive_with_index_agree(a: Seq<DiskDrive>, b: Seq<DiskDrive>, k: u32)
    requires
        drives_agree(a, b, |x: Option<String>, y: Option<String>| same_sanitized(x, y)),
    ensures
        drive_with_index(a, k) is None <==> drive_with_index(b, k) is None,
        drive_with_index(a, k) is Some ==> {
            let x = drive_with_index(a, k)->Some_0;
            let y = drive_with_index(b, k)->Some_0;
            same_sanitized(x.model, y.model) && same_sanitized(x.serial_number, y.serial_number)
        },
    decreases a.len(),
{
    if a.len() > 0 {
        assert(a[0].index == b[0].index);
        if a[0].index != k {
            let f = |x: Option<String>, y: Option<String>| same_sanitized(x, y);
            assert forall|i: int| 0 <= i < a.drop_first().len() implies (#[trigger] a.drop_first()[i]).index
                == b.drop_first()[i].index && f(a.drop_first()[i].model, b.drop_first()[i].model) && f(
                a.drop_first()[i].serial_number,
                b.drop_first()[i].serial_number,
            ) by {
                assert(a.drop_first()[i] == a[i + 1]);
                assert(b.drop_first()[i] == b[i + 1]);
            }
            lemma_drive_with_index_agree(a.drop_first(), b.drop_first(), k);
        }
    }
}

proof fn lemma_gpus_factors_agree(a: Seq<VideoController>, b: Seq<VideoController>)
    requires
        gpus_agree(a, b, |x: Option<String>, y: Option<String>| same_sanitized(x, y)),
    ensures
        gpus_factors(a) == gpus_factors(b),
    decreases a.len(),
{
    if a.len() > 0 {
        let f = |x: Option<String>, y: Option<String>| same_sanitized(x, y);
        let a2 = a.drop_last();
        let b2 = b.drop_last();
        assert forall|i: int| 0 <= i < a2.len() implies f(
            (#[trigger] a2[i]).adapter_compatibility,
            b2[i].adapter_compatibility,
        ) && f(a2[i].name, b2[i].name) && f(a2[i].pnp_device_id, b2[i].pnp_device_id) by {
            assert(a2[i] == a[i]);
            assert(b2[i] == b[i]);
        }
        lemma_gpus_factors_agree(a2, b2);
        let n = (a.len() - 1) as nat;
        assert(gpu_factor(n, a.last()) == gpu_factor(n, b.last()));
    }
}

/// The fingerprint depends on the records only through what the sanitizer
/// keeps of each field, the partitions, and the disk indexes.
pub proof fn lemma_fingerprint_reads_sanitized_fields(
    sel: Seq<MachineIdFactor>,
    a: HardwareRecords,
    b: HardwareRecords,
)
    requires
        records_agree(a, b, |x: Option<String>, y: Option<String>| same_sanitized(x, y)),
    ensures
        fingerprint_spec(sel, a) == fingerprint_spec(sel, b),
{
    assert(board_factors(a.board) == board_factors(b.board));
    assert(processor_factors(a.processor) == processor_factors(b.processor));
    match system_disk_of(a.partitions@) {
        None => {},
        Some(k) => {
            lemma_drive_with_index_agree(a.drives@, b.drives@, k);
        },
    }
    assert(disk_factors(a.partitions@, a.drives@) == disk_factors(b.partitions@, b.drives@));
    lemma_gpus_factors_agree(a.video_controllers@, b.video_controllers@);
    assert(collected_factors(sel, a) == collected_factors(sel, b));
}

/// Two raw field values with the same text.
pub open spec fn same_text_value(a: Option<String>, b: Option<String>) -> bool {
    opt_chars(a) == opt_chars(b)
}

/// Determinism: records with the same contents give the same identifier and
/// the same ordered factor list.
pub proof fn lemma_fingerprint_deterministic(
    sel: Seq<MachineIdFactor>,
    a: HardwareRecords,
    b: HardwareRecords,
)
    requires
        records_agree(a, b, |x: Option<String>, y: Option<String>| same_text_value(x, y)),
    ensures
        fingerprint_spec(sel, a) == fingerprint_spec(sel, b),
{
    let f = |x: Option<String>, y: Option<String>| same_sanitized(x, y);
    assert(drives_agree(a.drives@, b.drives@, f));
    assert(gpus_agree(a.video_controllers@, b.video_controllers@, f));
    lemma_fingerprint_reads_sanitized_fields(sel, a, b);
}

/// Two raw field values that differ at most in letter case and surrounding
/// white space.
pub open spec fn same_up_to_case_and_space(a: Option<String>, b: Option<String>) -> bool {
    match (a, b) {
        (None, None) => true,
        (Some(x), Some(y)) => normalized(x@) == normalized(y@) && (trim_of(x@).len() == 0) == (
        trim_of(y@).len() == 0),
        _ => false,
    }
}

/// Changing only the letter case or the surrounding white space of fields
/// leaves the identifier and the factor list unchanged.
pub proof fn lemma_fingerprint_ignores_case_and_space(
    sel: Seq<MachineIdFactor>,
    a: HardwareRecords,
    b: HardwareRecords,
)
    requires
        records_agree(a, b, |x: Option<String>, y: Option<String>| same_up_to_case_and_space(x, y)),
    ensures
        fingerprint_spec(sel, a) == fingerprint_spec(sel, b),
{
    let f = |x: Option<String>, y: Option<String>| same_sanitized(x, y);
    assert(drives_agree(a.drives@, b.drives@, f));
    assert(gpus_agree(a.video_controllers@, b.video_controllers@, f));
    lemma_fingerprint_reads_sanitized_fields(sel, a, b);
}

/// The sanitizer drops every value that is, up to case and surrounding
/// white space, a placeholder, and every blank value; keeps every other value
/// as its trimmed, lower-cased form; and leaves an absent value absent.
pub proof fn lemma_sanitizer(raw: Seq<char>)
    ensures
        is_placeholder(normalized(raw)) ==> sanitized(Some(raw)) is None,
        trim_of(raw).len() == 0 ==> sanitized(Some(raw)) is None,
        trim_of(raw).len() > 0 && !is_placeholder(normalized(raw)) ==> sanitized(Some(raw))
            == Some(lower_of(trim_of(raw))),
        sanitized(None) is None,
{
}

/// When attempt `i` is the first to confirm, the chain reports enabled with
/// exactly the lines of attempts `0..=i`; when none confirms, it reports
/// disabled with one line per attempt and the summary.
pub proof fn lemma_probe_chain(a: Seq<Attempt>, summary: Seq<char>, i: int)
    ensures
        first_confirmed_at(a, i) ==> chain_outcome(a, summary).0 && chain_outcome(a, summary).1.len()
            == i + 1,
        none_confirmed(a) ==> !chain_outcome(a, summary).0 && chain_outcome(a, summary).1.len()
            == a.len() + 1,
{
    if first_confirmed_at(a, i) {
        assert(!none_confirmed(a));
        let k = choose|k: int| first_confirmed_at(a, k);
        if k < i {
            assert(!a[k].confirmed);
        } else if i < k {
            assert(!a[i].confirmed);
        }
    }
}

/// Lock-step answers: a ready worker that receives request `a`, answers it,
/// and then receives request `b`, answers `a` first and `b` second, each
/// with the response for that request alone.
pub proof fn lemma_worker_answers_in_order(
    a: QueryRequest,
    b: QueryRequest,
    oa: Result<QueryResponse, String>,
    ob: Result<QueryResponse, String>,
    s1: WorkerState,
    s2: WorkerState,
    s3: WorkerState,
    s4: WorkerState,
    s5: WorkerState,
    x1: WorkerAction,
    x2: WorkerAction,
    x3: WorkerAction,
    x4: WorkerAction,
    x5: WorkerAction,
)
    requires
        a != QueryRequest::Shutdown,
        b != QueryRequest::Shutdown,
        worker_transition(WorkerState::Ready, WorkerEvent::Received(Some(a)), s1, x1),
        worker_transition(s1, WorkerEvent::QueryDone(oa), s2, x2),
        worker_transition(s2, WorkerEvent::Sent(true), s3, x3),
        worker_transition(s3, WorkerEvent::Received(Some(b)), s4, x4),
        worker_transition(s4, WorkerEvent::QueryDone(ob), s5, x5),
    ensures
        x1 == WorkerAction::RunQuery(a),
        x2 is Send && response_for(a, oa, x2->Send_0),
        x3 == WorkerAction::Wait,
        x4 == WorkerAction::RunQuery(b),
        x5 is Send && response_for(b, ob, x5->Send_0),
        s5 == WorkerState::Sending,
{
}

/// `Shutdown` ends a ready worker with no response, and a terminated worker
/// sends nothing more, whatever happens next.
pub proof fn lemma_worker_shutdown(e: WorkerEvent, s1: WorkerState, x1: WorkerAction, s2: WorkerState, x2: WorkerAction)
    requires
        worker_transition(WorkerState::Ready, WorkerEvent::Received(Some(QueryRequest::Shutdown)), s1, x1),
        worker_transition(s1, e, s2, x2),
    ensures
        s1 == WorkerState::Terminated && x1 == WorkerAction::Exit,
        s2 == WorkerState::Terminated && x2 == WorkerAction::Exit,
{
}

/// An adapter whose device identifier does not name a PCI device
/// contributes no factor; a PCI adapter with all three fields kept by the
/// sanitizer contributes one factor, its three tagged sub-values joined in
/// sorted order.
pub proof fn lemma_gpu_filter(i: nat, vc: VideoController)
    ensures
        !is_pci_device(opt_chars(vc.pnp_device_id)) ==> gpu_factor(i, vc).len() == 0,
        is_pci_device(opt_chars(vc.pnp_device_id)) && sanitized(opt_chars(vc.adapter_compatibility)) is Some
            && sanitized(opt_chars(vc.name)) is Some && sanitized(opt_chars(vc.pnp_device_id)) is Some
            ==> gpu_factor(i, vc) == seq![
            join_with(
                seq![
                    gpu_tag(i, "_manufacturer:"@) + sanitized(opt_chars(vc.adapter_compatibility))->Some_0,
                    gpu_tag(i, "_model:"@) + sanitized(opt_chars(vc.name))->Some_0,
                    gpu_tag(i, "_pnp_id:"@) + sanitized(opt_chars(vc.pnp_device_id))->Some_0,
                ],
                ';',
            ),
        ],
        is_pci_device(opt_chars(vc.pnp_device_id)) && sanitized(opt_chars(vc.adapter_compatibility)) is Some
            && sanitized(opt_chars(vc.name)) is Some && sanitized(opt_chars(vc.pnp_device_id)) is Some
            ==> strictly_sorted(gpu_parts(i, vc)),
{
    let p = gpu_parts(i, vc);
    if sanitized(opt_chars(vc.adapter_compatibility)) is Some && sanitized(opt_chars(vc.name)) is Some
        && sanitized(opt_chars(vc.pnp_device_id)) is Some {
        assert(p =~= seq![
            gpu_tag(i, "_manufacturer:"@) + sanitized(opt_chars(vc.adapter_compatibility))->Some_0,
            gpu_tag(i, "_model:"@) + sanitized(opt_chars(vc.name))->Some_0,
            gpu_tag(i, "_pnp_id:"@) + sanitized(opt_chars(vc.pnp_device_id))->Some_0,
        ]);
        lemma_gpu_parts_sorted(
            i,
            sanitized(opt_chars(vc.adapter_compatibility))->Some_0,
            sanitized(opt_chars(vc.name))->Some_0,
            sanitized(opt_chars(vc.pnp_device_id))->Some_0,
        );
    }
}

proof fn lemma_insert_sorted_nonempty(s: Seq<Seq<char>>, x: Seq<char>)
    ensures
        insert_sorted(s, x).len() > 0,
    decreases s.len(),
{
    if s.len() > 0 && s[0] != x && !lex_lt(x, s[0]) {
        lemma_insert_sorted_nonempty(s.drop_first(), x);
    }
}

/// No factor at all gives `NoFactorsFound`, never an identifier; any factor
/// gives an identifier.
pub proof fn lemma_empty_factor_path(sel: Seq<MachineIdFactor>, r: HardwareRecords)
    ensures
        collected_factors(sel, r).len() == 0 ==> fingerprint_spec(sel, r) == Err::<
            (Seq<char>, Seq<Seq<char>>),
            MachineIdError,
        >(MachineIdError::NoFactorsFound),
        collected_factors(sel, r).len() > 0 ==> fingerprint_spec(sel, r) is Ok,
{
    let fs = collected_factors(sel, r);
    if fs.len() > 0 {
        lemma_insert_sorted_nonempty(ordered_set_of(fs.drop_last()), fs.last());
    }
}

proof fn lemma_gpu_parts_sorted(i: nat, a: Seq<char>, b: Seq<char>, c: Seq<char>)
    ensures
        strictly_sorted(
            seq![
                gpu_tag(i, "_manufacturer:"@) + a,
                gpu_tag(i, "_model:"@) + b,
                gpu_tag(i, "_pnp_id:"@) + c,
            ],
        ),
{
    reveal_strlit("gpu");
    reveal_strlit("_manufacturer:");
    reveal_strlit("_model:");
    reveal_strlit("_pnp_id:");
    let p = "gpu"@ + digits_of(i);
    let n = p.len() as int;
    let x = gpu_tag(i, "_manufacturer:"@) + a;
    let y = gpu_tag(i, "_model:"@) + b;
    let z = gpu_tag(i, "_pnp_id:"@) + c;
    assert(x =~= p + ("_manufacturer:"@ + a));
    assert(y =~= p + ("_model:"@ + b));
    assert(z =~= p + ("_pnp_id:"@ + c));
    assert forall|j: int| 0 <= j < n + 2 implies x[j] == y[j] by {
        if j < n {
            assert(x[j] == p[j] && y[j] == p[j]);
        }
    }
    assert(x[n + 2] == 'a' && y[n + 2] == 'o');
    lemma_lex_first_difference(x, y, n + 2);
    assert forall|j: int| 0 <= j < n + 1 implies y[j] == z[j] && x[j] == z[j] by {
        if j < n {
            assert(x[j] == p[j] && y[j] == p[j] && z[j] == p[j]);
        }
    }
    assert(y[n + 1] == 'm' && z[n + 1] == 'p' && x[n + 1] == 'm');
    lemma_lex_first_difference(y, z, n + 1);
    lemma_lex_first_difference(x, z, n + 1);
    let s = seq![x, y, z];
    assert forall|i1: int, j1: int| 0 <= i1 < j1 < s.len() implies lex_lt(#[trigger] s[i1], #[trigger] s[j1]) by {
        if i1 == 0 && j1 == 1 {
        } else if i1 == 0 {
        } else {
        }
    }
}

proof fn lemma_contains_concat(a: Seq<Seq<char>>, b: Seq<Seq<char>>, y: Seq<char>)
    ensures
        (a + b).contains(y) <==> (a.contains(y) || b.contains(y)),
{
    if (a + b).contains(y) {
        let k = choose|k: int| 0 <= k < (a + b).len() && (a + b)[k] == y;
        if k < a.len() {
            assert(a[k] == y);
        } else {
            assert(b[k - a.len()] == y);
        }
    }
    if a.contains(y) {
        let k = choose|k: int| 0 <= k < a.len() && a[k] == y;
        assert((a + b)[k] == y);
    }
    if b.contains(y) {
        let k = choose|k: int| 0 <= k < b.len() && b[k] == y;
        assert((a + b)[k + a.len()] == y);
    }
}

/// Every element of `s` begins with the character `c`.
pub open spec fn all_start_with(s: Seq<Seq<char>>, c: char) -> bool {
    forall|k: int| 0 <= k < s.len() ==> (#[trigger] s[k]).len() > 0 && s[k][0] == c
}

proof fn lemma_factor_starts(tag: Seq<char>, raw: Option<Seq<char>>)
    requires
        tag.len() > 0,
    ensures
        all_start_with(factor_of(tag, raw), tag[0]),
{
}

proof fn lemma_all_start_concat(a: Seq<Seq<char>>, b: Seq<Seq<char>>, c: char)
    requires
        all_start_with(a, c),
        all_start_with(b, c),
    ensures
        all_start_with(a + b, c),
{
    assert forall|k: int| 0 <= k < (a + b).len() implies (#[trigger] (a + b)[k]).len() > 0 && (a
        + b)[k][0] == c by {
        if k >= a.len() {
            assert((a + b)[k] == b[k - a.len()]);
        }
    }
}

proof fn lemma_join_first(parts: Seq<Seq<char>>, sep: char)
    requires
        parts.len() > 0,
        parts[0].len() > 0,
    ensures
        join_with(parts, sep).len() > 0,
        join_with(parts, sep)[0] == parts[0][0],
    decreases parts.len(),
{
    if parts.len() > 1 {
        lemma_join_first(parts.drop_last(), sep);
    }
}

proof fn lemma_gpus_start_with_g(g: Seq<VideoController>)
    ensures
        all_start_with(gpus_factors(g), 'g'),
    decreases g.len(),
{
    reveal_strlit("gpu");
    if g.len() > 0 {
        lemma_gpus_start_with_g(g.drop_last());
        let i = (g.len() - 1) as nat;
        let vc = g.last();
        let p = gpu_parts(i, vc);
        assert("gpu"@[0] == 'g');
        lemma_factor_starts(gpu_tag(i, "_manufacturer:"@), opt_chars(vc.adapter_compatibility));
        lemma_factor_starts(gpu_tag(i, "_model:"@), opt_chars(vc.name));
        lemma_factor_starts(gpu_tag(i, "_pnp_id:"@), opt_chars(vc.pnp_device_id));
        assert(gpu_tag(i, "_manufacturer:"@)[0] == 'g');
        assert(gpu_tag(i, "_model:"@)[0] == 'g');
        assert(gpu_tag(i, "_pnp_id:"@)[0] == 'g');
        lemma_all_start_concat(
            factor_of(gpu_tag(i, "_manufacturer:"@), opt_chars(vc.adapter_compatibility)),
            factor_of(gpu_tag(i, "_model:"@), opt_chars(vc.name)),
            'g',
        );
        lemma_all_start_concat(
            factor_of(gpu_tag(i, "_manufacturer:"@), opt_chars(vc.adapter_compatibility))
                + factor_of(gpu_tag(i, "_model:"@), opt_chars(vc.name)),
            factor_of(gpu_tag(i, "_pnp_id:"@), opt_chars(vc.pnp_device_id)),
            'g',
        );
        if gpu_factor(i, vc).len() > 0 {
            lemma_join_first(p, ';');
        }
        lemma_all_start_concat(gpus_factors(g.drop_last()), gpu_factor(i, vc), 'g');
    }
}

proof fn lemma_not_in_starting(s: Seq<Seq<char>>, c: char, y: Seq<char>)
    requires
        all_start_with(s, c),
        y.len() > 0,
        y[0] != c,
    ensures
        !s.contains(y),
{
}

/// Two record sets that differ only in the serial number of the system
/// disk's drive, where both serials survive the sanitizer and differ after
/// it.
pub open spec fn differ_in_system_disk_serial(a: HardwareRecords, b: HardwareRecords, k: int) -> bool {
    &&& a.board == b.board
    &&& a.processor == b.processor
    &&& a.partitions@ == b.partitions@
    &&& a.video_controllers@ == b.video_controllers@
    &&& a.drives@.len() == b.drives@.len()
    &&& 0 <= k < a.drives@.len()
    &&& forall|j: int| 0 <= j < a.drives@.len() && j != k ==> a.drives@[j] == b.drives@[j]
    &&& a.drives@[k].index == b.drives@[k].index
    &&& a.drives@[k].model == b.drives@[k].model
    &&& forall|j: int| 0 <= j < k ==> (#[trigger] a.drives@[j]).index != a.drives@[k].index
    &&& system_disk_of(a.partitions@) == Some(a.drives@[k].index)
    &&& sanitized(opt_chars(a.drives@[k].serial_number)) is Some
    &&& sanitized(opt_chars(b.drives@[k].serial_number)) is Some
    &&& sanitized(opt_chars(a.drives@[k].serial_number)) != sanitized(
        opt_chars(b.drives@[k].serial_number),
    )
}

proof fn lemma_drive_with_index_replaced(a: Seq<DiskDrive>, b: Seq<DiskDrive>, k: int, idx: u32)
    requires
        a.len() == b.len(),
        0 <= k < a.len(),
        forall|j: int| 0 <= j < a.len() && j != k ==> a[j] == b[j],
        a[k].index == b[k].index,
        a[k].index == idx,
        forall|j: int| 0 <= j < k ==> (#[trigger] a[j]).index != idx,
    ensures
        drive_with_index(a, idx) == Some(a[k]),
        drive_with_index(b, idx) == Some(b[k]),
    decreases a.len(),
{
    if k > 0 {
        assert(a[0] == b[0]);
        assert(a[0].index != idx);
        assert forall|j: int| 0 <= j < a.drop_first().len() && j != k - 1 implies a.drop_first()[j]
            == b.drop_first()[j] by {
            assert(a[j + 1] == b[j + 1]);
        }
        assert forall|j: int| 0 <= j < k - 1 implies (#[trigger] a.drop_first()[j]).index != idx by {
            assert(a.drop_first()[j] == a[j + 1]);
        }
        lemma_drive_with_index_replaced(a.drop_first(), b.drop_first(), k - 1, idx);
    }
}

/// Changing only the serial number of the system disk, to a value that the
/// sanitizer keeps and that differs from the old one after sanitizing,
/// changes the ordered factor list of the fingerprint. Whether the digest
/// changes as well rests on SHA-256 resisting collisions, which is no fact
/// that a proof can reach.
pub proof fn lemma_disk_serial_changes_factors(
    sel: Seq<MachineIdFactor>,
    a: HardwareRecords,
    b: HardwareRecords,
    k: int,
)
    requires
        sel.contains(MachineIdFactor::DiskDrivers),
        differ_in_system_disk_serial(a, b, k),
    ensures
        fingerprint_spec(sel, b) is Ok,
        fingerprint_spec(sel, a) is Ok ==> fingerprint_spec(sel, a)->Ok_0.1 != fingerprint_spec(
            sel,
            b,
        )->Ok_0.1,
{
    reveal_strlit("disk_serial:");
    reveal_strlit("disk_model:");
    reveal_strlit("bios_manufacturer:");
    reveal_strlit("bios_model:");
    reveal_strlit("bios_serial:");
    reveal_strlit("cpu_name:");
    reveal_strlit("cpu_id:");
    let idx = a.drives@[k].index;
    lemma_drive_with_index_replaced(a.drives@, b.drives@, k, idx);
    let da = a.drives@[k];
    let db = b.drives@[k];
    let va = sanitized(opt_chars(da.serial_number))->Some_0;
    let vb = sanitized(opt_chars(db.serial_number))->Some_0;
    let f = "disk_serial:"@ + vb;
    let ca = collected_factors(sel, a);
    let cb = collected_factors(sel, b);
    let empty = Seq::<Seq<char>>::empty();
    let ba = if sel.contains(MachineIdFactor::Baseboard) {
        board_factors(a.board)
    } else {
        empty
    };
    let pa = if sel.contains(MachineIdFactor::Processor) {
        processor_factors(a.processor)
    } else {
        empty
    };
    let ga = if sel.contains(MachineIdFactor::VideoControllers) {
        gpus_factors(a.video_controllers@)
    } else {
        empty
    };
    let dsa = disk_factors(a.partitions@, a.drives@);
    let dsb = disk_factors(b.partitions@, b.drives@);
    assert(ca == ba + pa + dsa + ga);
    assert(cb == ba + pa + dsb + ga);
    // the new serial's factor is among the factors of b
    assert(dsb == factor_of("disk_model:"@, opt_chars(db.model)) + seq![f]);
    assert(dsb[dsb.len() - 1] == f);
    assert(dsb.contains(f));
    lemma_contains_concat(ba + pa, dsb, f);
    lemma_contains_concat(ba + pa + dsb, ga, f);
    assert(cb.contains(f));
    // and it is not among the factors of a
    assert(f[0] == 'd' && f[5] == 's');
    if sel.contains(MachineIdFactor::Baseboard) {
        match a.board {
            None => {},
            Some(bd) => {
                lemma_factor_starts("bios_manufacturer:"@, opt_chars(bd.manufacturer));
                lemma_factor_starts("bios_model:"@, opt_chars(bd.product));
                lemma_factor_starts("bios_serial:"@, opt_chars(bd.serial_number));
                lemma_all_start_concat(
                    factor_of("bios_manufacturer:"@, opt_chars(bd.manufacturer)),
                    factor_of("bios_model:"@, opt_chars(bd.product)),
                    'b',
                );
                lemma_all_start_concat(
                    factor_of("bios_manufacturer:"@, opt_chars(bd.manufacturer)) + factor_of(
                        "bios_model:"@,
                        opt_chars(bd.product),
                    ),
                    factor_of("bios_serial:"@, opt_chars(bd.serial_number)),
                    'b',
                );
            },
        }
    }
    assert(all_start_with(ba, 'b'));
    lemma_not_in_starting(ba, 'b', f);
    if sel.contains(MachineIdFactor::Processor) {
        match a.processor {
            None => {},
            Some(pr) => {
                lemma_factor_starts("cpu_name:"@, opt_chars(pr.name));
                lemma_factor_starts("cpu_id:"@, opt_chars(pr.processor_id));
                lemma_all_start_concat(
                    factor_of("cpu_name:"@, opt_chars(pr.name)),
                    factor_of("cpu_id:"@, opt_chars(pr.processor_id)),
                    'c',
                );
            },
        }
    }
    assert(all_start_with(pa, 'c'));
    lemma_not_in_starting(pa, 'c', f);
    lemma_gpus_start_with_g(a.video_controllers@);
    assert(all_start_with(ga, 'g'));
    lemma_not_in_starting(ga, 'g', f);
    assert(dsa == factor_of("disk_model:"@, opt_chars(da.model)) + seq!["disk_serial:"@ + va]);
    assert(!dsa.contains(f)) by {
        if dsa.contains(f) {
            let m = choose|m: int| 0 <= m < dsa.len() && dsa[m] == f;
            if m == dsa.len() - 1 {
                assert(("disk_serial:"@ + va).subrange(12, f.len() as int) =~= va);
                assert(f.subrange(12, f.len() as int) =~= vb);
            } else {
                assert(dsa[m][5] == 'm');
            }
        }
    }
    lemma_contains_concat(ba, pa, f);
    lemma_contains_concat(ba + pa, dsa, f);
    lemma_contains_concat(ba + pa + dsa, ga, f);
    assert(!ca.contains(f));
    lemma_ordered_set(ca);
    lemma_ordered_set(cb);
    let ob = ordered_set_of(cb);
    assert(ob.contains(f));
    assert(ob.len() > 0);
}

} // verus!
