//! Concurrent-fetcher logic: manifest-line parsing, symbol-server path
//! layout, the per-task state machine, the bounded admission gate, and the
//! run summary.  Everything here is pure decision logic; the network and
//! file-system actions that carry the decisions out live outside the
//! library.

use vstd::prelude::*;

use crate::codeview::{spec_identity, spec_guid_age};
use crate::reader::CodeViewRecord;
use crate::hexfmt::{spec_hex_fixed, spec_hex_nopad, spec_hex_digit};
use crate::srv::SymSrv;
use crate::strutil::{
    spec_split, split_on, push_char, lemma_split_concat, lemma_split_whole, lemma_split_nonempty,
};
use crate::ProtocolError;

verus! {

/// The admission cap of the fetcher's scheduler: at most this many tasks
/// are in flight at once.
pub const FETCH_CONCURRENCY: usize = 64;

/// One parsed manifest line: the PDB file name, the GUID-and-age field,
/// and the trailer field.
#[derive(Clone, Debug)]
pub struct ManifestEntry {
    pub name: String,
    pub id: String,
    pub trailer: String,
}

/// What parsing one manifest line yields: exactly three comma-separated
/// fields, or a run-fatal error.
pub open spec fn spec_parse_manifest_line(s: Seq<char>) -> Result<
    (Seq<char>, Seq<char>, Seq<char>),
    ProtocolError,
> {
    let parts = spec_split(s, ',');
    if parts.len() != 3 {
        Err(ProtocolError::MalformedManifestLine)
    } else {
        Ok((parts[0], parts[1], parts[2]))
    }
}

/// Splits a manifest line into its three comma-separated fields.
pub fn parse_manifest_line(line: &str) -> (r: Result<ManifestEntry, ProtocolError>)
    ensures
        r matches Ok(e) ==> spec_parse_manifest_line(line@) == Ok::<_, ProtocolError>(
            (e.name@, e.id@, e.trailer@),
        ),
        r matches Err(e) ==> spec_parse_manifest_line(line@) == Err::<
            (Seq<char>, Seq<char>, Seq<char>),
            _,
        >(e),
{
    let parts = split_on(line, ',');
    if parts.len() != 3 {
        return Err(ProtocolError::MalformedManifestLine);
    }
    proof {
        assert(parts@.map_values(|p: String| p@)[0] == parts@[0]@);
        assert(parts@.map_values(|p: String| p@)[1] == parts@[1]@);
        assert(parts@.map_values(|p: String| p@)[2] == parts@[2]@);
    }
    Ok(ManifestEntry { name: parts[0].clone(), id: parts[1].clone(), trailer: parts[2].clone() })
}

/// The canonical symbol-server relative path of an entry:
/// `<name>/<id>/<name>`.
pub open spec fn spec_relative_path(name: Seq<char>, id: Seq<char>) -> Seq<char> {
    name + seq!['/'] + id + seq!['/'] + name
}

/// The relative directory an entry's file lives in: `<name>/<id>`.
pub open spec fn spec_relative_dir(name: Seq<char>, id: Seq<char>) -> Seq<char> {
    name + seq!['/'] + id
}

/// Joins `base` and `rel` with a single separator.
pub open spec fn spec_joined(base: Seq<char>, rel: Seq<char>) -> Seq<char> {
    base + seq!['/'] + rel
}

/// Builds the canonical relative storage path of an entry.
pub fn relative_path(e: &ManifestEntry) -> (r: String)
    ensures
        r@ == spec_relative_path(e.name@, e.id@),
{
    let mut out = e.name.clone();
    push_char(&mut out, '/');
    out.append(e.id.as_str());
    push_char(&mut out, '/');
    out.append(e.name.as_str());
    proof {
        assert(out@ =~= spec_relative_path(e.name@, e.id@));
    }
    out
}

/// Builds the relative directory of an entry.
pub fn relative_dir(e: &ManifestEntry) -> (r: String)
    ensures
        r@ == spec_relative_dir(e.name@, e.id@),
{
    let mut out = e.name.clone();
    push_char(&mut out, '/');
    out.append(e.id.as_str());
    proof {
        assert(out@ =~= spec_relative_dir(e.name@, e.id@));
    }
    out
}

/// Joins a base path or URL and a relative path with a single separator.
pub fn join_path(base: &str, rel: &str) -> (r: String)
    ensures
        r@ == spec_joined(base@, rel@),
{
    let mut out = String::from_str(base);
    push_char(&mut out, '/');
    out.append(rel);
    proof {
        assert(out@ =~= spec_joined(base@, rel@));
    }
    out
}

/// The URL an entry is fetched from: `<remote-base>/<name>/<id>/<name>`.
pub fn remote_url(srv: &SymSrv, e: &ManifestEntry) -> (r: String)
    ensures
        r@ == spec_joined(srv.server@, spec_relative_path(e.name@, e.id@)),
{
    let rel = relative_path(e);
    join_path(srv.server.as_str(), rel.as_str())
}

/// The local cache path an entry is stored at:
/// `<cache-root>/<name>/<id>/<name>`.
pub fn local_path(srv: &SymSrv, e: &ManifestEntry) -> (r: String)
    ensures
        r@ == spec_joined(srv.filepath@, spec_relative_path(e.name@, e.id@)),
{
    let rel = relative_path(e);
    join_path(srv.filepath.as_str(), rel.as_str())
}

/// The local cache directory an entry is stored under:
/// `<cache-root>/<name>/<id>`.
pub fn local_dir(srv: &SymSrv, e: &ManifestEntry) -> (r: String)
    ensures
        r@ == spec_joined(srv.filepath@, spec_relative_dir(e.name@, e.id@)),
{
    let rel = relative_dir(e);
    join_path(srv.filepath.as_str(), rel.as_str())
}

/// Why a fetch task failed.
#[derive(Clone, Copy, PartialEq, Eq, Structural, Debug)]
pub enum FailReason {
    /// The server answered with this non-200 status code.
    Status(u16),
    /// The transfer or the write to disk broke down.
    Transport,
}

/// The life of one fetch task.
#[derive(Clone, Copy, PartialEq, Eq, Structural, Debug)]
pub enum TaskState {
    Pending,
    Skipped,
    Fetching,
    Succeeded,
    Failed(FailReason),
}

/// What a task observes: whether its file is already cached, the response
/// status, and how the body-to-file copy ended.
#[derive(Clone, Copy, PartialEq, Eq, Structural, Debug)]
pub enum TaskEvent {
    CacheHit,
    CacheMiss,
    Response(u16),
    StreamOk,
    StreamError,
}

/// The per-task transition relation: a pending task is skipped exactly
/// when its file is already cached; a fetching task fails on any non-200
/// status, and otherwise succeeds or fails with the streamed copy.
pub open spec fn spec_task_step(s: TaskState, e: TaskEvent) -> TaskState {
    match (s, e) {
        (TaskState::Pending, TaskEvent::CacheHit) => TaskState::Skipped,
        (TaskState::Pending, TaskEvent::CacheMiss) => TaskState::Fetching,
        (TaskState::Fetching, TaskEvent::Response(code)) => if code == 200 {
            TaskState::Fetching
        } else {
            TaskState::Failed(FailReason::Status(code))
        },
        (TaskState::Fetching, TaskEvent::StreamOk) => TaskState::Succeeded,
        (TaskState::Fetching, TaskEvent::StreamError) => TaskState::Failed(FailReason::Transport),
        (_, _) => s,
    }
}

/// Advances a task by one observed event.
pub fn task_step(s: TaskState, e: TaskEvent) -> (r: TaskState)
    ensures
        r == spec_task_step(s, e),
{
    match (s, e) {
        (TaskState::Pending, TaskEvent::CacheHit) => TaskState::Skipped,
        (TaskState::Pending, TaskEvent::CacheMiss) => TaskState::Fetching,
        (TaskState::Fetching, TaskEvent::Response(code)) => if code == 200 {
            TaskState::Fetching
        } else {
            TaskState::Failed(FailReason::Status(code))
        },
        (TaskState::Fetching, TaskEvent::StreamOk) => TaskState::Succeeded,
        (TaskState::Fetching, TaskEvent::StreamError) => TaskState::Failed(FailReason::Transport),
        (_, _) => s,
    }
}

/// A pending task issues a request exactly when its file is missing from
/// the cache: a cached file is skipped outright, so re-running the
/// fetcher performs no redundant fetches.
pub proof fn lemma_cached_files_skipped(present: bool)
    ensures
        spec_task_step(
            TaskState::Pending,
            if present {
                TaskEvent::CacheHit
            } else {
                TaskEvent::CacheMiss
            },
        ) == if present {
            TaskState::Skipped
        } else {
            TaskState::Fetching
        },
{
}

/// The scheduler's admission gate: tracks how many tasks are in flight
/// and never lets the count exceed the cap.
pub struct AdmissionGate {
    pub cap: usize,
    pub in_flight: usize,
}

impl AdmissionGate {
    /// The admission invariant: never more in flight than the cap.
    pub open spec fn inv(self) -> bool {
        self.in_flight <= self.cap
    }

    /// A fresh gate with nothing in flight.
    pub fn new(cap: usize) -> (g: AdmissionGate)
        ensures
            g.inv(),
            g.cap == cap,
            g.in_flight == 0,
    {
        AdmissionGate { cap, in_flight: 0 }
    }

    /// Admits one task if a slot is free; returns whether it was admitted.
    pub fn try_admit(&mut self) -> (ok: bool)
        requires
            old(self).inv(),
        ensures
            final(self).inv(),
            final(self).cap == old(self).cap,
            ok == (old(self).in_flight < old(self).cap),
            ok ==> final(self).in_flight == old(self).in_flight + 1,
            !ok ==> *final(self) == *old(self),
    {
        if self.in_flight < self.cap {
            self.in_flight = self.in_flight + 1;
            true
        } else {
            false
        }
    }

    /// Frees the slot of one finished task.
    pub fn release(&mut self)
        requires
            old(self).inv(),
            old(self).in_flight > 0,
        ensures
            final(self).inv(),
            final(self).cap == old(self).cap,
            final(self).in_flight == old(self).in_flight - 1,
    {
        self.in_flight = self.in_flight - 1;
    }
}

/// The number of tasks in flight after a trace of admission attempts
/// (`true`) and releases (`false`) has been processed.
pub open spec fn spec_gate_run(cap: nat, trace: Seq<bool>) -> nat
    decreases trace.len(),
{
    if trace.len() == 0 {
        0
    } else {
        let prev = spec_gate_run(cap, trace.drop_last());
        if trace.last() {
            if prev < cap {
                prev + 1
            } else {
                prev
            }
        } else {
            if prev > 0 {
                (prev - 1) as nat
            } else {
                prev
            }
        }
    }
}

/// However many admission attempts and releases arrive, and in whatever
/// order, the number of in-flight tasks never exceeds the cap.
pub proof fn lemma_gate_never_exceeds_cap(cap: nat, trace: Seq<bool>)
    ensures
        spec_gate_run(cap, trace) <= cap,
    decreases trace.len(),
{
    if trace.len() > 0 {
        lemma_gate_never_exceeds_cap(cap, trace.drop_last());
    }
}

/// Counts of the tagged outcomes a run collects.
#[derive(Clone, Copy, PartialEq, Eq, Structural, Debug)]
pub struct RunSummary {
    pub skipped: usize,
    pub succeeded: usize,
    pub failed: usize,
}

/// How many of the states equal `Skipped`.
pub open spec fn spec_count_skipped(s: Seq<TaskState>) -> nat
    decreases s.len(),
{
    if s.len() == 0 {
        0
    } else {
        spec_count_skipped(s.drop_last()) + if s.last() is Skipped {
            1nat
        } else {
            0nat
        }
    }
}

/// How many of the states equal `Succeeded`.
pub open spec fn spec_count_succeeded(s: Seq<TaskState>) -> nat
    decreases s.len(),
{
    if s.len() == 0 {
        0
    } else {
        spec_count_succeeded(s.drop_last()) + if s.last() is Succeeded {
            1nat
        } else {
            0nat
        }
    }
}

/// How many of the states are `Failed`.
pub open spec fn spec_count_failed(s: Seq<TaskState>) -> nat
    decreases s.len(),
{
    if s.len() == 0 {
        0
    } else {
        spec_count_failed(s.drop_last()) + if s.last() is Failed {
            1nat
        } else {
            0nat
        }
    }
}

/// The indices of the failed tasks, in order.
pub open spec fn spec_failed_indices(s: Seq<TaskState>) -> Seq<int>
    decreases s.len(),
{
    if s.len() == 0 {
        Seq::empty()
    } else if s.last() is Failed {
        spec_failed_indices(s.drop_last()).push(s.len() - 1)
    } else {
        spec_failed_indices(s.drop_last())
    }
}

/// Tallies a run's final task states into the three outcome counts.
#[verifier::loop_isolation(false)]
pub fn summarize(states: &Vec<TaskState>) -> (r: RunSummary)
    ensures
        r.skipped == spec_count_skipped(states@),
        r.succeeded == spec_count_succeeded(states@),
        r.failed == spec_count_failed(states@),
{
    let mut skipped: usize = 0;
    let mut succeeded: usize = 0;
    let mut failed: usize = 0;
    let n = states.len();
    let mut i: usize = 0;
    proof {
        assert(states@.take(0) =~= Seq::<TaskState>::empty());
    }
    while i < n
        invariant
            i <= n,
            skipped == spec_count_skipped(states@.take(i as int)),
            succeeded == spec_count_succeeded(states@.take(i as int)),
            failed == spec_count_failed(states@.take(i as int)),
            skipped <= i && succeeded <= i && failed <= i,
        decreases n - i,
    {
        proof {
            assert(states@.take(i as int + 1).drop_last() =~= states@.take(i as int));
            assert(states@.take(i as int + 1).last() == states@[i as int]);
        }
        match states[i] {
            TaskState::Skipped => { skipped = skipped + 1 },
            TaskState::Succeeded => { succeeded = succeeded + 1 },
            TaskState::Failed(_) => { failed = failed + 1 },
            _ => {},
        }
        i = i + 1;
    }
    proof {
        assert(states@.take(n as int) =~= states@);
    }
    RunSummary { skipped, succeeded, failed }
}

/// Collects the indices of the failed tasks, in order.
#[verifier::loop_isolation(false)]
pub fn failed_indices(states: &Vec<TaskState>) -> (r: Vec<usize>)
    ensures
        r@.map_values(|i: usize| i as int) == spec_failed_indices(states@),
{
    let mut out: Vec<usize> = Vec::new();
    let n = states.len();
    let mut i: usize = 0;
    proof {
        assert(states@.take(0) =~= Seq::<TaskState>::empty());
        assert(out@.map_values(|k: usize| k as int) =~= spec_failed_indices(states@.take(0)));
    }
    while i < n
        invariant
            i <= n,
            out@.map_values(|k: usize| k as int) == spec_failed_indices(states@.take(i as int)),
        decreases n - i,
    {
        proof {
            assert(states@.take(i as int + 1).drop_last() =~= states@.take(i as int));
            assert(states@.take(i as int + 1).last() == states@[i as int]);
        }
        if let TaskState::Failed(_) = states[i] {
            proof {
                assert(out@.push(i).map_values(|k: usize| k as int) =~= out@.map_values(
                    |k: usize| k as int,
                ).push(i as int));
            }
            out.push(i);
        }
        i = i + 1;
    }
    proof {
        assert(states@.take(n as int) =~= states@);
    }
    out
}

/// No fixed-width hex rendering contains a comma.
proof fn lemma_hex_fixed_no_comma(v: int, digits: nat, upper: bool)
    ensures
        forall|i: int|
            0 <= i < spec_hex_fixed(v, digits, upper).len() ==> spec_hex_fixed(v, digits, upper)[i]
                != ',',
    decreases digits,
{
    if digits > 0 {
        lemma_hex_fixed_no_comma(v / 16, (digits - 1) as nat, upper);
        let pre = spec_hex_fixed(v / 16, (digits - 1) as nat, upper);
        let whole = spec_hex_fixed(v, digits, upper);
        assert forall|i: int| 0 <= i < whole.len() implies whole[i] != ',' by {
            if i < pre.len() {
                assert(whole[i] == pre[i]);
            } else {
                assert(whole[i] == spec_hex_digit(v % 16, upper));
            }
        }
    }
}

/// No unpadded hex rendering contains a comma.
proof fn lemma_hex_nopad_no_comma(v: int)
    ensures
        forall|i: int| 0 <= i < spec_hex_nopad(v).len() ==> spec_hex_nopad(v)[i] != ',',
    decreases v,
{
    if v >= 16 {
        lemma_hex_nopad_no_comma(v / 16);
        let pre = spec_hex_nopad(v / 16);
        let whole = spec_hex_nopad(v);
        assert forall|i: int| 0 <= i < whole.len() implies whole[i] != ',' by {
            if i < pre.len() {
                assert(whole[i] == pre[i]);
            } else {
                assert(whole[i] == spec_hex_digit(v % 16, false));
            }
        }
    }
}

/// Round trip from renderer to parser: an identity line rendered for a
/// name that carries no comma parses back into that name, the rendered
/// GUID-and-age field, and the literal trailer `1`.
pub proof fn lemma_identity_round_trip(name: Seq<char>, cv: CodeViewRecord)
    requires
        forall|i: int| 0 <= i < name.len() ==> name[i] != ',',
    ensures
        spec_parse_manifest_line(spec_identity(name, cv)) == Ok::<_, ProtocolError>(
            (name, spec_guid_age(cv), seq!['1']),
        ),
{
    let ga = spec_guid_age(cv);
    let tail = ga + seq![','] + seq!['1'];
    lemma_hex_fixed_no_comma(cv.guid_a as int, 8, true);
    lemma_hex_fixed_no_comma(cv.guid_b as int, 4, true);
    lemma_hex_fixed_no_comma(cv.guid_c as int, 4, true);
    lemma_hex_fixed_no_comma(cv.guid_d0 as int, 2, true);
    lemma_hex_fixed_no_comma(cv.guid_d1 as int, 2, true);
    lemma_hex_fixed_no_comma(cv.guid_d2 as int, 2, true);
    lemma_hex_fixed_no_comma(cv.guid_d3 as int, 2, true);
    lemma_hex_fixed_no_comma(cv.guid_d4 as int, 2, true);
    lemma_hex_fixed_no_comma(cv.guid_d5 as int, 2, true);
    lemma_hex_fixed_no_comma(cv.guid_d6 as int, 2, true);
    lemma_hex_fixed_no_comma(cv.guid_d7 as int, 2, true);
    lemma_hex_nopad_no_comma(cv.age as int);
    assert(forall|i: int| 0 <= i < ga.len() ==> ga[i] != ',');
    assert(spec_identity(name, cv) =~= name + seq![','] + tail);
    lemma_split_concat(name, tail, ',');
    assert(tail =~= ga + seq![','] + seq!['1']);
    lemma_split_concat(ga, seq!['1'], ',');
    lemma_split_whole(seq!['1'], ',');
    assert(spec_split(spec_identity(name, cv), ',') =~= seq![name, ga, seq!['1']]);
}

} // verus!
