//! Where dense arithmetic runs: what may be used, what was used, and the report
//! on it.

use crate::config::{env_value, optional_env_value, RuntimeConfig};
use crate::model::{copy_names, rows, text_view};
use crate::number::Double;
use crate::text::{lowered, same, texts, to_lower};
use vstd::prelude::*;
use vstd::string::*;

verus! {

/// What was available and what was used.
#[derive(Debug)]
pub struct AcceleratorReport {
    pub mode: String,
    pub backend: String,
    pub gpu_available: bool,
    pub used_gpu: bool,
    pub used_cpu_parallel: bool,
    pub notes: Vec<String>,
}

/// The contents of a report.
#[verifier::ext_equal]
pub struct Report {
    pub mode: Seq<char>,
    pub backend: Seq<char>,
    pub gpu_available: bool,
    pub used_gpu: bool,
    pub used_cpu_parallel: bool,
    pub notes: Seq<Seq<char>>,
}

impl View for AcceleratorReport {
    type V = Report;

    open spec fn view(&self) -> Report {
        Report {
            mode: self.mode@,
            backend: self.backend@,
            gpu_available: self.gpu_available,
            used_gpu: self.used_gpu,
            used_cpu_parallel: self.used_cpu_parallel,
            notes: texts(self.notes@),
        }
    }
}

impl Default for AcceleratorReport {
    fn default() -> (r: Self)
        ensures
            r@ == (Report {
                mode: ""@,
                backend: ""@,
                gpu_available: false,
                used_gpu: false,
                used_cpu_parallel: false,
                notes: seq![],
            }),
    {
        let r = AcceleratorReport {
            mode: "".to_owned(),
            backend: "".to_owned(),
            gpu_available: false,
            used_gpu: false,
            used_cpu_parallel: false,
            notes: Vec::new(),
        };
        assert(r@.notes =~= seq![]);
        r
    }
}

impl Clone for AcceleratorReport {
    fn clone(&self) -> (r: Self)
        ensures
            r@ == self@,
    {
        AcceleratorReport {
            mode: self.mode.clone(),
            backend: self.backend.clone(),
            gpu_available: self.gpu_available,
            used_gpu: self.used_gpu,
            used_cpu_parallel: self.used_cpu_parallel,
            notes: copy_names(&self.notes),
        }
    }
}

/// A summary of a report.
#[derive(Debug)]
pub struct GpuStatus {
    pub available: bool,
    pub backend: String,
    pub used: bool,
    pub mode: String,
    pub note: Option<String>,
}

/// The contents of a summary.
#[verifier::ext_equal]
pub struct GpuSummary {
    pub available: bool,
    pub backend: Seq<char>,
    pub used: bool,
    pub mode: Seq<char>,
    pub note: Option<Seq<char>>,
}

impl View for GpuStatus {
    type V = GpuSummary;

    open spec fn view(&self) -> GpuSummary {
        GpuSummary {
            available: self.available,
            backend: self.backend@,
            used: self.used,
            mode: self.mode@,
            note: text_view(self.note),
        }
    }
}

/// The configured mode, in small letters.
pub open spec fn configured_mode(config: RuntimeConfig) -> Seq<char> {
    lowered(config.text_or("MIP_SOLVER_GPU_MODE"@, "auto"@))
}

/// The configured mode.
pub fn gpu_mode(config: &RuntimeConfig) -> (r: String)
    ensures
        r@ == configured_mode(*config),
{
    to_lower(env_value(config, "MIP_SOLVER_GPU_MODE", "auto").as_str())
}

/// Whether a GPU can be used: one is made visible to the process, or its device
/// is there.
pub open spec fn gpu_at_hand(config: RuntimeConfig, device_present: bool) -> bool {
    device_present || match config.text_of("NVIDIA_VISIBLE_DEVICES"@) {
        Some(v) => v.len() > 0 && v != "void"@ && v != "none"@,
        None => false,
    }
}

/// Whether a GPU can be used.
pub fn gpu_available(config: &RuntimeConfig, device_present: bool) -> (r: bool)
    ensures
        r == gpu_at_hand(*config, device_present),
{
    let visible = match optional_env_value(config, "NVIDIA_VISIBLE_DEVICES") {
        Some(v) => !v.as_str().is_empty() && !same(v.as_str(), "void") && !same(
            v.as_str(),
            "none",
        ),
        None => false,
    };
    visible || device_present
}

/// The report on a node that has used nothing yet.
pub open spec fn fresh_report(mode: Seq<char>, gpu_available: bool) -> Report {
    Report {
        mode,
        backend: if gpu_available {
            "cuda-visible"@
        } else {
            "cpu"@
        },
        gpu_available,
        used_gpu: false,
        used_cpu_parallel: false,
        notes: Seq::empty(),
    }
}

/// Whether a note is in a list.
pub open spec fn with_note(notes: Seq<Seq<char>>, note: Seq<char>) -> Seq<Seq<char>> {
    if notes.contains(note) {
        notes
    } else {
        notes.push(note)
    }
}

/// A list of notes with more notes, none of them twice.
pub open spec fn with_notes(notes: Seq<Seq<char>>, more: Seq<Seq<char>>) -> Seq<Seq<char>>
    decreases more.len(),
{
    if more.len() == 0 {
        notes
    } else {
        with_note(with_notes(notes, more.drop_last()), more.last())
    }
}

/// Two reports in one: what either had or used, the backend of the second where
/// it is more than the plain processor, and the notes of both.
pub open spec fn merged_report(a: Report, b: Report) -> Report {
    Report {
        mode: a.mode,
        backend: if b.used_gpu || b.backend != "cpu"@ {
            b.backend
        } else {
            a.backend
        },
        gpu_available: a.gpu_available || b.gpu_available,
        used_gpu: a.used_gpu || b.used_gpu,
        used_cpu_parallel: a.used_cpu_parallel || b.used_cpu_parallel,
        notes: with_notes(a.notes, b.notes),
    }
}

/// The summary of a report: its first note is the note.
pub open spec fn summary_of(report: Report) -> GpuSummary {
    GpuSummary {
        available: report.gpu_available,
        backend: report.backend,
        used: report.used_gpu,
        mode: report.mode,
        note: if report.notes.len() > 0 {
            Some(report.notes[0])
        } else {
            None
        },
    }
}

fn start_report(mode: String, gpu_available: bool) -> (r: AcceleratorReport)
    ensures
        r@ == fresh_report(mode@, gpu_available),
{
    let r = AcceleratorReport {
        mode,
        backend: if gpu_available {
            "cuda-visible".to_owned()
        } else {
            "cpu".to_owned()
        },
        gpu_available,
        used_gpu: false,
        used_cpu_parallel: false,
        notes: Vec::new(),
    };
    assert(r@ =~= fresh_report(mode@, gpu_available));
    r
}

impl AcceleratorReport {
    /// The report on a node that has used nothing yet, in the configured mode.
    pub fn runtime(config: &RuntimeConfig, device_present: bool) -> (r: AcceleratorReport)
        ensures
            r@ == fresh_report(configured_mode(*config), gpu_at_hand(*config, device_present)),
    {
        start_report(gpu_mode(config), gpu_available(config, device_present))
    }

    /// The report on a node that has used nothing yet, in a given mode.
    pub fn for_mode(mode: &str, gpu_available: bool) -> (r: AcceleratorReport)
        ensures
            r@ == fresh_report(lowered(mode@), gpu_available),
    {
        start_report(to_lower(mode), gpu_available)
    }

    /// Takes in another report.
    pub fn merge(&mut self, other: &AcceleratorReport)
        ensures
            final(self)@ == merged_report(old(self)@, other@),
    {
        self.gpu_available = self.gpu_available || other.gpu_available;
        self.used_gpu = self.used_gpu || other.used_gpu;
        self.used_cpu_parallel = self.used_cpu_parallel || other.used_cpu_parallel;
        if other.used_gpu || !same(other.backend.as_str(), "cpu") {
            self.backend = other.backend.clone();
        }
        push_notes(&mut self.notes, &other.notes);
    }
}

fn push_notes(notes: &mut Vec<String>, more: &Vec<String>)
    ensures
        texts(final(notes)@) == with_notes(texts(old(notes)@), texts(more@)),
{
    let ghost first = texts(notes@);
    let ghost added = texts(more@);
    let mut i: usize = 0;
    assert(added.take(0) =~= Seq::empty());
    while i < more.len()
        invariant
            i <= more@.len(),
            added == texts(more@),
            first == texts(old(notes)@),
            texts(notes@) == with_notes(first, added.take(i as int)),
        decreases more@.len() - i,
    {
        assert(added.take(i + 1).drop_last() =~= added.take(i as int));
        assert(added.take(i + 1).last() == more@[i as int]@);
        let ghost now = texts(notes@);
        let mut known = false;
        let mut k: usize = 0;
        while k < notes.len() && !known
            invariant
                k <= notes@.len(),
                now == texts(notes@),
                i < more@.len(),
                known ==> now.contains(more@[i as int]@),
                !known ==> forall|j: int| 0 <= j < k ==> now[j] != more@[i as int]@,
            decreases notes@.len() - k + if known {
                0int
            } else {
                1
            },
        {
            assert(now[k as int] == notes@[k as int]@);
            if same(notes[k].as_str(), more[i].as_str()) {
                known = true;
            } else {
                k = k + 1;
            }
        }
        if !known {
            assert(!now.contains(more@[i as int]@));
            let ghost before = notes@;
            notes.push(more[i].clone());
            assert(texts(notes@) =~= now.push(more@[i as int]@));
        }
        i = i + 1;
    }
    assert(added.take(i as int) =~= added);
}

/// The summary of a report.
pub fn gpu_status_from_report(report: &AcceleratorReport) -> (r: GpuStatus)
    ensures
        r@ == summary_of(report@),
{
    let note = if report.notes.len() > 0 {
        assert(texts(report.notes@)[0] == report.notes@[0]@);
        Some(report.notes[0].clone())
    } else {
        None
    };
    GpuStatus {
        available: report.gpu_available,
        backend: report.backend.clone(),
        used: report.used_gpu,
        mode: report.mode.clone(),
        note,
    }
}

/// The summary of a node that has used nothing yet.
pub fn gpu_status(config: &RuntimeConfig, device_present: bool) -> (r: GpuStatus)
    ensures
        r@ == summary_of(
            fresh_report(configured_mode(*config), gpu_at_hand(*config, device_present)),
        ),
{
    gpu_status_from_report(&AcceleratorReport::runtime(config, device_present))
}

/// Whether a mode forbids the GPU.
pub open spec fn mode_disables(mode: Seq<char>) -> bool {
    mode == "off"@ || mode == "false"@ || mode == "0"@ || mode == "disabled"@ || mode == "none"@
}

/// Whether a mode forbids the GPU.
pub fn gpu_disabled(mode: &str) -> (r: bool)
    ensures
        r == mode_disables(mode@),
{
    same(mode, "off") || same(mode, "false") || same(mode, "0") || same(mode, "disabled") || same(
        mode,
        "none",
    )
}

/// Whether a mode asks for the GPU and for nothing else.
pub open spec fn mode_requires(mode: Seq<char>) -> bool {
    mode == "require"@ || mode == "required"@ || mode == "must"@
}

/// Whether a mode asks for the GPU and for nothing else.
pub fn gpu_required(mode: &str) -> (r: bool)
    ensures
        r == mode_requires(mode@),
{
    same(mode, "require") || same(mode, "required") || same(mode, "must")
}

/// No mode both forbids the GPU and requires it.
pub proof fn modes_are_consistent(mode: Seq<char>)
    ensures
        !(mode_disables(mode) && mode_requires(mode)),
{
    reveal_strlit("off");
    reveal_strlit("false");
    reveal_strlit("0");
    reveal_strlit("disabled");
    reveal_strlit("none");
    reveal_strlit("require");
    reveal_strlit("required");
    reveal_strlit("must");
    if mode_disables(mode) && mode_requires(mode) {
        assert(mode[0] == 'r' || mode[0] == 'm');
        assert(mode[0] == 'o' || mode[0] == 'f' || mode[0] == '0' || mode[0] == 'd' || mode[0]
            == 'n');
    }
}

// Where a matrix is multiplied with a vector.

/// What to do about a product.
#[derive(Debug)]
pub enum MatvecStep {
    /// There is nothing to multiply.
    Empty(AcceleratorReport),
    /// The product cannot be had.
    Refuse(String),
    /// Multiply on the GPU.
    Gpu(AcceleratorReport),
    /// Multiply on the processor.
    Cpu(AcceleratorReport),
}

/// Whether every row has `n` entries.
pub open spec fn rectangular(a: Seq<Seq<Double>>, n: nat) -> bool {
    forall|i: int| 0 <= i < a.len() ==> (#[trigger] a[i]).len() == n
}

fn is_rectangular(a: &Vec<Vec<Double>>, n: usize) -> (r: bool)
    ensures
        r == rectangular(rows(a@), n as nat),
{
    let mut i: usize = 0;
    while i < a.len()
        invariant
            i <= a@.len(),
            forall|j: int| 0 <= j < i ==> (#[trigger] rows(a@)[j]).len() == n,
        decreases a@.len() - i,
    {
        if a[i].len() != n {
            assert(rows(a@)[i as int].len() != n);
            return false;
        }
        i = i + 1;
    }
    true
}

/// The note where a GPU is asked for and none is there.
pub open spec fn no_device_note() -> Seq<char> {
    "GPU requested but no NVIDIA device is visible"@
}

/// A report with a note added.
pub open spec fn noted(report: Report, note: Seq<char>) -> Report {
    Report { notes: report.notes.push(note), ..report }
}

/// How a product is begun, in a mode and on a node with or without a GPU.
pub fn matvec_begin(a: &Vec<Vec<Double>>, n: usize, mode: &str, gpu_available: bool) -> (r:
    MatvecStep)
    ensures
        ({
            let start = fresh_report(lowered(mode@), gpu_available);
            if a@.len() == 0 {
                r is Empty && r->Empty_0@ == start
            } else if !rectangular(rows(a@), n as nat) {
                r is Refuse && r->Refuse_0@
                    == "accelerated matvec received a non-rectangular matrix"@
            } else if mode_disables(lowered(mode@)) {
                r is Cpu && r->Cpu_0@ == start
            } else if gpu_available {
                r is Gpu && r->Gpu_0@ == start
            } else if mode_requires(lowered(mode@)) {
                r is Refuse && r->Refuse_0@ == no_device_note()
            } else {
                r is Cpu && r->Cpu_0@ == noted(start, no_device_note())
            }
        }),
{
    let mut report = AcceleratorReport::for_mode(mode, gpu_available);
    if a.len() == 0 {
        return MatvecStep::Empty(report);
    }
    if !is_rectangular(a, n) {
        return MatvecStep::Refuse(
            "accelerated matvec received a non-rectangular matrix".to_owned(),
        );
    }
    if gpu_disabled(report.mode.as_str()) {
        return MatvecStep::Cpu(report);
    }
    if report.gpu_available {
        return MatvecStep::Gpu(report);
    }
    let note = "GPU requested but no NVIDIA device is visible".to_owned();
    if gpu_required(report.mode.as_str()) {
        return MatvecStep::Refuse(note);
    }
    let ghost before = report.notes@;
    report.notes.push(note);
    assert(texts(report.notes@) =~= texts(before).push(note@));
    MatvecStep::Cpu(report)
}

/// What follows a product on the GPU that failed: the processor, with a note,
/// unless the mode requires the GPU.
pub fn matvec_gpu_failed(report: AcceleratorReport, error: String) -> (r: MatvecStep)
    ensures
        if mode_requires(report@.mode) {
            r is Refuse && r->Refuse_0@ == error@
        } else {
            r is Cpu && r->Cpu_0@ == noted(
                report@,
                "CUDA/cuBLAS unavailable; used CPU fallback: "@ + error@,
            )
        },
{
    if gpu_required(report.mode.as_str()) {
        return MatvecStep::Refuse(error);
    }
    let mut report = report;
    let mut note = "CUDA/cuBLAS unavailable; used CPU fallback: ".to_owned();
    note.append(error.as_str());
    let ghost before = report.notes@;
    report.notes.push(note);
    assert(texts(report.notes@) =~= texts(before).push(note@));
    MatvecStep::Cpu(report)
}

/// The report on a product made on the GPU.
pub fn matvec_gpu_done(report: AcceleratorReport) -> (r: AcceleratorReport)
    ensures
        r@ == (Report { backend: "cuda-cublas-dgemv"@, used_gpu: true, ..report@ }),
{
    let mut report = report;
    report.backend = "cuda-cublas-dgemv".to_owned();
    report.used_gpu = true;
    report
}

/// The report on a product made on the processor.
pub fn matvec_cpu_done(report: AcceleratorReport, parallel: bool) -> (r: AcceleratorReport)
    ensures
        r@ == (Report {
            backend: if parallel {
                "in-house-cpu-threaded"@
            } else {
                "in-house-cpu"@
            },
            used_cpu_parallel: parallel,
            ..report@
        }),
{
    let mut report = report;
    report.backend = if parallel {
        "in-house-cpu-threaded".to_owned()
    } else {
        "in-house-cpu".to_owned()
    };
    report.used_cpu_parallel = parallel;
    report
}

/// Taking in another report loses nothing: what either used counts as used, what either
/// had counts as available, and every note of both is there.
pub proof fn merging_reports_loses_nothing(a: Report, b: Report)
    ensures
        merged_report(a, b).mode == a.mode,
        merged_report(a, b).gpu_available == (a.gpu_available || b.gpu_available),
        merged_report(a, b).used_gpu == (a.used_gpu || b.used_gpu),
        merged_report(a, b).used_cpu_parallel == (a.used_cpu_parallel || b.used_cpu_parallel),
        b.used_gpu ==> merged_report(a, b).backend == b.backend,
        forall|n: Seq<char>|
            a.notes.contains(n) || b.notes.contains(n) <==> #[trigger] merged_report(
                a,
                b,
            ).notes.contains(n),
        a.notes.is_prefix_of(merged_report(a, b).notes),
{
    notes_are_gathered(a.notes, b.notes);
}

proof fn notes_are_gathered(notes: Seq<Seq<char>>, more: Seq<Seq<char>>)
    ensures
        forall|n: Seq<char>|
            notes.contains(n) || more.contains(n) <==> #[trigger] with_notes(notes, more).contains(
                n,
            ),
        notes.is_prefix_of(with_notes(notes, more)),
    decreases more.len(),
{
    if more.len() > 0 {
        let front = more.drop_last();
        let before = with_notes(notes, front);
        let after = with_notes(notes, more);
        notes_are_gathered(notes, front);
        assert forall|n: Seq<char>|
            notes.contains(n) || more.contains(n) <==> #[trigger] after.contains(n) by {
            if more.contains(n) {
                let k = choose|k: int| 0 <= k < more.len() && more[k] == n;
                if k < front.len() {
                    assert(front[k] == n);
                    assert(before.contains(n));
                }
            }
            if front.contains(n) {
                let k = choose|k: int| 0 <= k < front.len() && front[k] == n;
                assert(more[k] == n);
            }
            if before.contains(n) {
                let k = choose|k: int| 0 <= k < before.len() && before[k] == n;
                assert(after[k] == n);
            }
            if after.contains(n) {
                let k = choose|k: int| 0 <= k < after.len() && after[k] == n;
                if k < before.len() {
                    assert(before[k] == n);
                } else {
                    assert(more[more.len() - 1] == n);
                }
            }
            if n == more.last() {
                if before.contains(n) {
                    assert(after.contains(n));
                } else {
                    assert(after[before.len() as int] == n);
                }
            }
        }
        assert(notes.is_prefix_of(before));
        assert(before.subrange(0, notes.len() as int) =~= notes);
        assert(after.subrange(0, notes.len() as int) =~= notes);
    } else {
        assert(notes.subrange(0, notes.len() as int) =~= notes);
        assert(more =~= Seq::empty());
    }
}

/// The names of the modes, and when a GPU counts as visible.
pub proof fn modes_have_names(config: RuntimeConfig)
    ensures
        mode_disables("off"@) && mode_disables("false"@) && mode_disables("0"@) && mode_disables(
            "disabled"@,
        ) && mode_disables("none"@),
        mode_requires("require"@) && mode_requires("required"@) && mode_requires("must"@),
        !mode_disables("auto"@) && !mode_requires("auto"@),
        gpu_at_hand(config, true),
        config.text_of("NVIDIA_VISIBLE_DEVICES"@) is None ==> !gpu_at_hand(config, false),
        config.text_of("NVIDIA_VISIBLE_DEVICES"@) == Some("void"@) ==> !gpu_at_hand(config, false),
        config.text_of("NVIDIA_VISIBLE_DEVICES"@) == Some("none"@) ==> !gpu_at_hand(config, false),
        config.text_of("NVIDIA_VISIBLE_DEVICES"@) == Some("all"@) ==> gpu_at_hand(config, false),
        config.settings@.len() == 0 ==> configured_mode(config) == "auto"@,
{
    reveal_strlit("off");
    reveal_strlit("false");
    reveal_strlit("0");
    reveal_strlit("disabled");
    reveal_strlit("none");
    reveal_strlit("auto");
    reveal_strlit("require");
    reveal_strlit("required");
    reveal_strlit("must");
    reveal_strlit("all");
    reveal_strlit("void");
    assert("auto"@[0] == 'a' && "none"@[0] == 'n' && "must"@[0] == 'm');
    assert("auto"@.len() == 4);
    assert("all"@.len() == 3);
    assert(lowered("auto"@) =~= "auto"@);
}

/// A summary tells what a report tells, and its first note.
pub proof fn summaries_tell_the_report(report: Report)
    ensures
        summary_of(report).available == report.gpu_available,
        summary_of(report).used == report.used_gpu,
        summary_of(report).backend == report.backend,
        summary_of(report).mode == report.mode,
        report.notes.len() > 0 ==> summary_of(report).note == Some(report.notes[0]),
        report.notes.len() == 0 ==> summary_of(report).note is None,
{
}

/// A report begins with nothing used and nothing noted; the device is told where one is
/// at hand. A note is put behind the others and changes nothing else.
pub proof fn reports_begin_unused(mode: Seq<char>, gpu_available: bool, r: Report, note: Seq<char>)
    ensures
        ({
            let f = fresh_report(mode, gpu_available);
            &&& f.mode == mode && f.gpu_available == gpu_available
            &&& !f.used_gpu && !f.used_cpu_parallel && f.notes.len() == 0
            &&& gpu_available ==> f.backend == "cuda-visible"@
            &&& !gpu_available ==> f.backend == "cpu"@
        }),
        noted(r, note).notes == r.notes.push(note),
        noted(r, note).used_gpu == r.used_gpu && noted(r, note).gpu_available == r.gpu_available
            && noted(r, note).backend == r.backend && noted(r, note).used_cpu_parallel
            == r.used_cpu_parallel && noted(r, note).mode == r.mode,
{
}

}
