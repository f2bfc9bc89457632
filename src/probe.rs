//! The fallback probe chain: several unreliable detection methods for one
//! yes/no question, tried in order until one confirms, with a diagnostic
//! line for every attempt.
use vstd::prelude::*;
use crate::factor_set::views;
use crate::records::OptionalFeature;
use crate::text::same_text;

verus! {

/// The answer to a feature probe, with the diagnostic trail behind it.
#[derive(Debug, Clone)]
pub struct FeatureStatus {
    pub enabled: bool,
    pub details: Vec<String>,
}

/// One detection method's outcome: whether it confirmed the feature, and
/// the line that describes the attempt.
#[derive(Debug, Clone)]
pub struct Attempt {
    pub confirmed: bool,
    pub line: String,
}

pub open spec fn lines_of(a: Seq<Attempt>) -> Seq<Seq<char>> {
    a.map_values(|x: Attempt| x.line@)
}

/// Attempt `i` is the first that confirms.
pub open spec fn first_confirmed_at(a: Seq<Attempt>, i: int) -> bool {
    0 <= i < a.len() && a[i].confirmed && forall|j: int| 0 <= j < i ==> !(#[trigger] a[j]).confirmed
}

pub open spec fn none_confirmed(a: Seq<Attempt>) -> bool {
    forall|j: int| 0 <= j < a.len() ==> !(#[trigger] a[j]).confirmed
}

/// What a chain over attempts `a` reports: enabled with the lines up to the
/// first confirmation, or disabled with every line and the summary.
pub open spec fn chain_outcome(a: Seq<Attempt>, summary: Seq<char>) -> (bool, Seq<Seq<char>>) {
    if none_confirmed(a) {
        (false, lines_of(a).push(summary))
    } else {
        let i = choose|i: int| first_confirmed_at(a, i);
        (true, lines_of(a.take(i + 1)))
    }
}

pub open spec fn status_view(s: FeatureStatus) -> (bool, Seq<Seq<char>>) {
    (s.enabled, views(s.details@))
}

/// A chain in progress: the lines so far, and whether a method confirmed.
#[derive(Debug)]
pub struct ProbeChain {
    pub enabled: bool,
    pub details: Vec<String>,
}

impl ProbeChain {
    pub fn new() -> (c: ProbeChain)
        ensures
            !c.enabled,
            c.details@.len() == 0,
    {
        ProbeChain { enabled: false, details: Vec::new() }
    }

    /// Records one attempt; returns whether the chain stops here, which it
    /// does exactly when the attempt confirmed.
    pub fn record(&mut self, attempt: Attempt) -> (stop: bool)
        requires
            !old(self).enabled,
        ensures
            views(final(self).details@) == views(old(self).details@).push(attempt.line@),
            final(self).enabled == attempt.confirmed,
            stop == attempt.confirmed,
    {
        let ghost before = self.details@;
        let confirmed = attempt.confirmed;
        self.details.push(attempt.line);
        assert(views(self.details@) =~= views(before).push(attempt.line@));
        self.enabled = confirmed;
        confirmed
    }

    /// Ends the chain: when no method confirmed, the summary line closes
    /// the trail.
    pub fn finish(self, summary: String) -> (s: FeatureStatus)
        ensures
            s.enabled == self.enabled,
            views(s.details@) == if self.enabled {
                views(self.details@)
            } else {
                views(self.details@).push(summary@)
            },
    {
        let mut details = self.details;
        let ghost before = details@;
        if !self.enabled {
            details.push(summary);
            assert(views(details@) =~= views(before).push(summary@));
        }
        FeatureStatus { enabled: self.enabled, details }
    }
}

/// The answer when a prerequisite of every method is missing: disabled,
/// with that one line.
pub fn gated_out(line: String) -> (s: FeatureStatus)
    ensures
        !s.enabled,
        views(s.details@) == seq![line@],
{
    let mut details: Vec<String> = Vec::new();
    details.push(line);
    assert(views(details@) =~= seq![details@[0]@]);
    FeatureStatus { enabled: false, details }
}

proof fn lemma_first_confirmed_unique(a: Seq<Attempt>, i: int, k: int)
    requires
        first_confirmed_at(a, i),
        first_confirmed_at(a, k),
    ensures
        i == k,
{
    if i < k {
        assert(!a[i].confirmed);
    } else if k < i {
        assert(!a[k].confirmed);
    }
}

/// Runs a chain over attempts in order, stopping at the first that
/// confirms.
pub fn run_probe_chain(attempts: &Vec<Attempt>, summary: String) -> (s: FeatureStatus)
    ensures
        status_view(s) == chain_outcome(attempts@, summary@),
{
    let ghost a = attempts@;
    let mut chain = ProbeChain::new();
    let mut i: usize = 0;
    assert(lines_of(a.take(0)) =~= views(chain.details@));
    while i < attempts.len()
        invariant
            a == attempts@,
            i <= a.len(),
            !chain.enabled,
            views(chain.details@) == lines_of(a.take(i as int)),
            forall|j: int| 0 <= j < i ==> !(#[trigger] a[j]).confirmed,
        decreases a.len() - i,
    {
        let line = attempts[i].line.clone();
        let attempt = Attempt { confirmed: attempts[i].confirmed, line };
        let stop = chain.record(attempt);
        assert(lines_of(a.take(i + 1)) =~= lines_of(a.take(i as int)).push(a[i as int].line@));
        if stop {
            proof {
                assert(first_confirmed_at(a, i as int));
                assert(!none_confirmed(a));
                let k = choose|k: int| first_confirmed_at(a, k);
                lemma_first_confirmed_unique(a, i as int, k);
            }
            return chain.finish(summary);
        }
        i += 1;
    }
    assert(a.take(a.len() as int) =~= a);
    assert(none_confirmed(a));
    chain.finish(summary)
}

pub open spec fn service_line(service: Seq<char>, state: Result<bool, String>) -> Seq<char> {
    match state {
        Ok(true) => "服务 '"@ + service + "': 状态为 '正在运行'。"@,
        Ok(false) => "服务 '"@ + service + "': 状态为 '已停止'。"@,
        Err(e) => "服务 '"@ + service + "' 查询失败: "@ + e@ + "。"@,
    }
}

/// The attempt of a service-state query: it confirms when the service runs.
pub fn service_attempt(service: &str, state: Result<bool, String>) -> (a: Attempt)
    ensures
        a.confirmed == (state == Ok::<bool, String>(true)),
        a.line@ == service_line(service@, state),
{
    let mut line = "服务 '".to_owned();
    line.append(service);
    match state {
        Ok(running) => {
            if running {
                line.append("': 状态为 '正在运行'。");
            } else {
                line.append("': 状态为 '已停止'。");
            }
            Attempt { confirmed: running, line }
        },
        Err(e) => {
            line.append("' 查询失败: ");
            line.append(e.as_str());
            line.append("。");
            Attempt { confirmed: false, line }
        },
    }
}

pub open spec fn state_word(on: bool) -> Seq<char> {
    if on {
        "已启用"@
    } else {
        "未启用"@
    }
}

fn state_word_text(on: bool) -> (t: &'static str)
    ensures
        t@ == state_word(on),
{
    if on {
        "已启用"
    } else {
        "未启用"
    }
}

pub open spec fn hyperv_wmi_line(r: Result<bool, String>) -> Seq<char> {
    match r {
        Ok(on) => "WMI 检查: Hyper-V 可选功能状态为 "@ + state_word(on) + "。"@,
        Err(e) => e@,
    }
}

/// The attempt of the optional-feature query for the hypervisor.
pub fn hyperv_wmi_attempt(r: Result<bool, String>) -> (a: Attempt)
    ensures
        a.confirmed == (r == Ok::<bool, String>(true)),
        a.line@ == hyperv_wmi_line(r),
{
    match r {
        Ok(on) => {
            let mut line = "WMI 检查: Hyper-V 可选功能状态为 ".to_owned();
            line.append(state_word_text(on));
            line.append("。");
            Attempt { confirmed: on, line }
        },
        Err(e) => Attempt { confirmed: false, line: e },
    }
}

pub open spec fn registry_line(present: bool) -> Seq<char> {
    if present {
        "注册表检查: WSL 已启用。"@
    } else {
        "注册表检查: WSL 未启用。"@
    }
}

/// The attempt of the registry check for the Linux subsystem.
pub fn registry_attempt(present: bool) -> (a: Attempt)
    ensures
        a.confirmed == present,
        a.line@ == registry_line(present),
{
    if present {
        Attempt { confirmed: true, line: "注册表检查: WSL 已启用。".to_owned() }
    } else {
        Attempt { confirmed: false, line: "注册表检查: WSL 未启用。".to_owned() }
    }
}

pub open spec fn wsl_wmi_line(r: Result<(bool, bool), String>) -> Seq<char> {
    match r {
        Ok((w, v)) => "WMI: 'Microsoft-Windows-Subsystem-Linux' 状态为 "@ + state_word(w)
            + ". WMI: 'VirtualMachinePlatform' 状态为 "@ + state_word(v) + "."@,
        Err(e) => "WMI 查询可选功能失败: "@ + e@ + "。"@,
    }
}

/// The attempt of the optional-feature query for the Linux subsystem: it
/// confirms when both the subsystem and the virtual machine platform are
/// enabled.
pub fn wsl_wmi_attempt(r: Result<(bool, bool), String>) -> (a: Attempt)
    ensures
        a.confirmed == (r is Ok && r->Ok_0.0 && r->Ok_0.1),
        a.line@ == wsl_wmi_line(r),
{
    match r {
        Ok((w, v)) => {
            let mut line = "WMI: 'Microsoft-Windows-Subsystem-Linux' 状态为 ".to_owned();
            line.append(state_word_text(w));
            line.append(". WMI: 'VirtualMachinePlatform' 状态为 ");
            line.append(state_word_text(v));
            line.append(".");
            Attempt { confirmed: w && v, line }
        },
        Err(e) => {
            let mut line = "WMI 查询可选功能失败: ".to_owned();
            line.append(e.as_str());
            line.append("。");
            Attempt { confirmed: false, line }
        },
    }
}

pub open spec fn wsl_missing_line() -> Seq<char> {
    "文件检查: 未找到 wsl.exe，WSL 未安装。"@
}

pub open spec fn wsl_found_line() -> Seq<char> {
    "文件检查: 找到 wsl.exe。"@
}

/// The outcome of a prerequisite check.
#[derive(Debug)]
pub enum GateOutcome {
    /// The prerequisite holds: its line is the chain's first, unconfirming
    /// attempt.
    Passed(Attempt),
    /// The prerequisite is missing: the chain ends with this answer.
    Closed(FeatureStatus),
}

/// The prerequisite of every WSL method: without `wsl.exe` the chain ends
/// at once with one line; with it, the chain starts with the line that says
/// so.
pub fn wsl_gate(exe_present: bool) -> (r: GateOutcome)
    ensures
        exe_present <==> r is Passed,
        r is Passed ==> !r->Passed_0.confirmed && r->Passed_0.line@ == wsl_found_line(),
        r is Closed ==> status_view(r->Closed_0) == (false, seq![wsl_missing_line()]),
{
    if exe_present {
        GateOutcome::Passed(Attempt { confirmed: false, line: "文件检查: 找到 wsl.exe。".to_owned() })
    } else {
        GateOutcome::Closed(gated_out("文件检查: 未找到 wsl.exe，WSL 未安装。".to_owned()))
    }
}

/// The closing line of the hypervisor chain when no method confirmed.
pub fn hyperv_summary() -> (t: String)
    ensures
        t@ == "所有检测方法均未能确认 Hyper-V 已完全启用。"@,
{
    "所有检测方法均未能确认 Hyper-V 已完全启用。".to_owned()
}

/// The closing line of the Linux-subsystem chain when no method confirmed.
pub fn wsl_summary() -> (t: String)
    ensures
        t@ == "所有检测方法均未能确认 WSL 已完全启用。"@,
{
    "所有检测方法均未能确认 WSL 已完全启用。".to_owned()
}

pub open spec fn feature_enabled(fs: Seq<OptionalFeature>, name: Seq<char>) -> bool {
    exists|i: int| 0 <= i < fs.len() && (#[trigger] fs[i]).install_state == 1 && fs[i].name@ == name
}

proof fn lemma_feature_enabled_step(fs: Seq<OptionalFeature>, i: int, name: Seq<char>)
    requires
        0 <= i < fs.len(),
    ensures
        feature_enabled(fs.take(i + 1), name) == (feature_enabled(fs.take(i), name) || (
        fs[i].install_state == 1 && fs[i].name@ == name)),
{
    let t = fs.take(i + 1);
    let p = fs.take(i);
    if feature_enabled(p, name) {
        let j = choose|j: int| 0 <= j < p.len() && (#[trigger] p[j]).install_state == 1 && p[j].name@ == name;
        assert(t[j] == p[j]);
    }
    if fs[i].install_state == 1 && fs[i].name@ == name {
        assert(t[i] == fs[i]);
    }
    if feature_enabled(t, name) {
        let j = choose|j: int| 0 <= j < t.len() && (#[trigger] t[j]).install_state == 1 && t[j].name@ == name;
        if j < i {
            assert(p[j] == t[j]);
        }
    }
}

/// Reads the optional-feature records of the Linux subsystem: whether the
/// subsystem and the virtual machine platform are each enabled (install
/// state 1). A failed query stays an error.
pub fn check_wsl_via_wmi(query: Result<Vec<OptionalFeature>, String>) -> (r: Result<
    (bool, bool),
    String,
>)
    ensures
        match query {
            Err(e) => r == Err::<(bool, bool), String>(e),
            Ok(fs) => r == Ok::<(bool, bool), String>(
                (
                    feature_enabled(fs@, "Microsoft-Windows-Subsystem-Linux"@),
                    feature_enabled(fs@, "VirtualMachinePlatform"@),
                ),
            ),
        },
{
    let features = match query {
        Err(e) => return Err(e),
        Ok(fs) => fs,
    };
    let mut wsl_enabled = false;
    let mut vmp_enabled = false;
    let mut i: usize = 0;
    while i < features.len()
        invariant
            i <= features@.len(),
            wsl_enabled == feature_enabled(
                features@.take(i as int),
                "Microsoft-Windows-Subsystem-Linux"@,
            ),
            vmp_enabled == feature_enabled(features@.take(i as int), "VirtualMachinePlatform"@),
        decreases features@.len() - i,
    {
        let f = &features[i];
        proof {
            reveal_strlit("Microsoft-Windows-Subsystem-Linux");
            reveal_strlit("VirtualMachinePlatform");
            lemma_feature_enabled_step(features@, i as int, "Microsoft-Windows-Subsystem-Linux"@);
            lemma_feature_enabled_step(features@, i as int, "VirtualMachinePlatform"@);
        }
        if f.install_state == 1 {
            if same_text(f.name.as_str(), "Microsoft-Windows-Subsystem-Linux") {
                wsl_enabled = true;
            }
            if same_text(f.name.as_str(), "VirtualMachinePlatform") {
                vmp_enabled = true;
            }
        }
        i += 1;
    }
    assert(features@.take(features@.len() as int) =~= features@);
    Ok((wsl_enabled, vmp_enabled))
}

/// Reads the optional-feature records of the hypervisor: enabled when the
/// first record has install state 1; no record means not enabled.
pub fn check_hyperv_via_wmi(query: Result<Vec<OptionalFeature>, String>) -> (r: Result<
    bool,
    String,
>)
    ensures
        match query {
            Err(e) => r == Err::<bool, String>(e),
            Ok(fs) => r == Ok::<bool, String>(fs@.len() > 0 && fs@[0].install_state == 1),
        },
{
    match query {
        Err(e) => Err(e),
        Ok(fs) => {
            if fs.len() > 0 {
                Ok(fs[0].install_state == 1)
            } else {
                Ok(false)
            }
        },
    }
}

} // verus!
