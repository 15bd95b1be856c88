//! Copying a directory into the store: which link strategy the store's
//! file system supports, how each file is placed, and how the walked
//! entries are sorted into work.

use vstd::prelude::*;
use crate::manager::cache::LinkStrategy;

verus! {

/// A step of the probe that finds out how files can be placed.
#[derive(Debug, Clone, Copy, PartialEq, Eq, Structural)]
pub enum ProbeStep {
    /// Write a small probe file into the store.
    WriteProbe,
    /// Reflink the probe file to a second name.
    TryReflink,
    /// Hard-link the probe file to a second name.
    TryHardlink,
}

/// What follows a probe step.
#[derive(Debug, Clone, Copy, PartialEq, Eq, Structural)]
pub enum ProbeOutcome {
    /// Perform this step next.
    Next(ProbeStep),
    /// The strategy is settled; when `remove_probes` is set, remove both
    /// probe files first.
    Settled { strategy: LinkStrategy, remove_probes: bool },
}

/// The step that starts the probe.
pub fn probe_start() -> (s: ProbeStep)
    ensures
        s == ProbeStep::WriteProbe,
{
    ProbeStep::WriteProbe
}

/// What follows `step` when it succeeded or failed.
pub open spec fn probe_transition(step: ProbeStep, succeeded: bool) -> ProbeOutcome {
    match step {
        ProbeStep::WriteProbe => if succeeded {
            ProbeOutcome::Next(ProbeStep::TryReflink)
        } else {
            ProbeOutcome::Settled { strategy: LinkStrategy::Copy, remove_probes: false }
        },
        ProbeStep::TryReflink => if succeeded {
            ProbeOutcome::Settled { strategy: LinkStrategy::Reflink, remove_probes: true }
        } else {
            ProbeOutcome::Next(ProbeStep::TryHardlink)
        },
        ProbeStep::TryHardlink => if succeeded {
            ProbeOutcome::Settled { strategy: LinkStrategy::Hardlink, remove_probes: true }
        } else {
            ProbeOutcome::Settled { strategy: LinkStrategy::Copy, remove_probes: true }
        },
    }
}

/// Advances the probe after `step`.
pub fn probe_next(step: ProbeStep, succeeded: bool) -> (o: ProbeOutcome)
    ensures
        o == probe_transition(step, succeeded),
{
    match step {
        ProbeStep::WriteProbe => if succeeded {
            ProbeOutcome::Next(ProbeStep::TryReflink)
        } else {
            ProbeOutcome::Settled { strategy: LinkStrategy::Copy, remove_probes: false }
        },
        ProbeStep::TryReflink => if succeeded {
            ProbeOutcome::Settled { strategy: LinkStrategy::Reflink, remove_probes: true }
        } else {
            ProbeOutcome::Next(ProbeStep::TryHardlink)
        },
        ProbeStep::TryHardlink => if succeeded {
            ProbeOutcome::Settled { strategy: LinkStrategy::Hardlink, remove_probes: true }
        } else {
            ProbeOutcome::Settled { strategy: LinkStrategy::Copy, remove_probes: true }
        },
    }
}

/// The strategy a file system supports: reflinks if they work, else hard
/// links if they work, else plain copies; plain copies too when the probe
/// file cannot even be written.
pub open spec fn supported_strategy(written: bool, reflink_ok: bool, hardlink_ok: bool) -> LinkStrategy {
    if !written {
        LinkStrategy::Copy
    } else if reflink_ok {
        LinkStrategy::Reflink
    } else if hardlink_ok {
        LinkStrategy::Hardlink
    } else {
        LinkStrategy::Copy
    }
}

/// Running the probe to its end settles on the supported strategy, within
/// three steps, and removes the probe files whenever it wrote them.
pub proof fn lemma_probe_settles(written: bool, reflink_ok: bool, hardlink_ok: bool)
    ensures
        ({
            let o1 = probe_transition(ProbeStep::WriteProbe, written);
            let o2 = probe_transition(ProbeStep::TryReflink, reflink_ok);
            let o3 = probe_transition(ProbeStep::TryHardlink, hardlink_ok);
            let settled = if !written {
                o1
            } else if reflink_ok {
                o2
            } else {
                o3
            };
            &&& (written ==> o1 == ProbeOutcome::Next(ProbeStep::TryReflink))
            &&& (written && !reflink_ok ==> o2 == ProbeOutcome::Next(ProbeStep::TryHardlink))
            &&& settled == ProbeOutcome::Settled {
                strategy: supported_strategy(written, reflink_ok, hardlink_ok),
                remove_probes: written,
            }
        }),
{
}

/// The probe prefers the fastest way that works: a written probe file that
/// reflinks gives reflinks; one that only hard-links gives hard links; and
/// otherwise, or when the probe file cannot be written, plain copies. The
/// probe files are removed exactly when the first one was written.
pub proof fn lemma_probe_prefers_fastest(reflink_ok: bool, hardlink_ok: bool)
    ensures
        probe_transition(ProbeStep::WriteProbe, false) == (ProbeOutcome::Settled {
            strategy: LinkStrategy::Copy,
            remove_probes: false,
        }),
        probe_transition(ProbeStep::WriteProbe, true) == ProbeOutcome::Next(ProbeStep::TryReflink),
        probe_transition(ProbeStep::TryReflink, true) == (ProbeOutcome::Settled {
            strategy: LinkStrategy::Reflink,
            remove_probes: true,
        }),
        probe_transition(ProbeStep::TryReflink, false) == ProbeOutcome::Next(ProbeStep::TryHardlink),
        probe_transition(ProbeStep::TryHardlink, hardlink_ok) == (ProbeOutcome::Settled {
            strategy: if hardlink_ok { LinkStrategy::Hardlink } else { LinkStrategy::Copy },
            remove_probes: true,
        }),
{
}

/// A way to place one file.
#[derive(Debug, Clone, Copy, PartialEq, Eq, Structural)]
pub enum FileOp {
    Reflink,
    Hardlink,
    Copy,
}

/// The ways to try, in order, to place a file under a strategy: its fast
/// way first, then a plain copy when the fast way fails.
pub open spec fn file_ops_of(strategy: LinkStrategy) -> Seq<FileOp> {
    match strategy {
        LinkStrategy::Reflink => seq![FileOp::Reflink, FileOp::Copy],
        LinkStrategy::Hardlink => seq![FileOp::Hardlink, FileOp::Copy],
        LinkStrategy::Copy => seq![FileOp::Copy],
    }
}

/// The ways to try to place a file. The first that succeeds places it; the
/// error of the last is the file's error. A plain copy is always last.
pub fn file_ops(strategy: LinkStrategy) -> (ops: Vec<FileOp>)
    ensures
        ops@ == file_ops_of(strategy),
        ops@.len() > 0,
        ops@.last() == FileOp::Copy,
{
    let mut ops = Vec::new();
    match strategy {
        LinkStrategy::Reflink => ops.push(FileOp::Reflink),
        LinkStrategy::Hardlink => ops.push(FileOp::Hardlink),
        LinkStrategy::Copy => {},
    }
    ops.push(FileOp::Copy);
    assert(ops@ =~= file_ops_of(strategy));
    ops
}

/// Each strategy tries its own way first and falls back to a plain copy:
/// reflink then copy, hard link then copy, and copy alone.
pub proof fn lemma_fast_way_then_copy()
    ensures
        file_ops_of(LinkStrategy::Reflink) == seq![FileOp::Reflink, FileOp::Copy],
        file_ops_of(LinkStrategy::Hardlink) == seq![FileOp::Hardlink, FileOp::Copy],
        file_ops_of(LinkStrategy::Copy) == seq![FileOp::Copy],
{
}

/// The kind of a walked entry.
#[derive(Debug, Clone, Copy, PartialEq, Eq, Structural)]
pub enum EntryKind {
    Dir,
    Symlink,
    /// A regular file or anything else that is neither.
    Other,
}

/// An entry found while walking the directory to copy.
#[derive(Debug, Clone, Copy, PartialEq, Eq, Structural)]
pub struct WalkEntry {
    pub kind: EntryKind,
    /// Levels below the walked root; the root itself is at depth 0.
    pub depth: usize,
    /// The entry is the walked root (its relative path is empty).
    pub is_root: bool,
}

/// The work of a copy, as indices into the walked entries: directories to
/// create, files to place, and symlinks to recreate, each with the depth
/// below the copied root of the directory that holds it.
pub struct CopyPlan {
    pub dirs: Vec<usize>,
    pub files: Vec<usize>,
    pub symlinks: Vec<(usize, i32)>,
}

/// The depth below the copied root of the directory that holds an entry at
/// `depth`.
pub open spec fn holder_depth(depth: usize) -> i32 {
    (if depth == 0 {
        0
    } else {
        depth - 1
    }) as i32
}

/// The plan of a list of entries, built front to back: the root is skipped,
/// directories, symlinks and other entries each go to their list, in order.
pub open spec fn plan_of(entries: Seq<WalkEntry>) -> (Seq<usize>, Seq<usize>, Seq<(usize, i32)>)
    decreases entries.len(),
{
    if entries.len() == 0 {
        (seq![], seq![], seq![])
    } else {
        let (d, f, s) = plan_of(entries.drop_last());
        let i = (entries.len() - 1) as usize;
        let e = entries.last();
        if e.is_root {
            (d, f, s)
        } else {
            match e.kind {
                EntryKind::Dir => (d.push(i), f, s),
                EntryKind::Symlink => (d, f, s.push((i, holder_depth(e.depth)))),
                EntryKind::Other => (d, f.push(i), s),
            }
        }
    }
}

/// Sorts the walked entries into the work of the copy.
pub fn plan_copy(entries: &Vec<WalkEntry>) -> (plan: CopyPlan)
    ensures
        (plan.dirs@, plan.files@, plan.symlinks@) == plan_of(entries@),
{
    let mut plan = CopyPlan { dirs: Vec::new(), files: Vec::new(), symlinks: Vec::new() };
    let mut i: usize = 0;
    while i < entries.len()
        invariant
            i <= entries@.len(),
            (plan.dirs@, plan.files@, plan.symlinks@) == plan_of(entries@.take(i as int)),
        decreases entries@.len() - i,
    {
        let e = entries[i];
        assert(entries@.take(i as int + 1).drop_last() =~= entries@.take(i as int));
        if !e.is_root {
            match e.kind {
                EntryKind::Dir => plan.dirs.push(i),
                EntryKind::Symlink => {
                    let start: usize = if e.depth == 0 { 0 } else { e.depth - 1 };
                    #[verifier::truncate]
                    let d = start as i32;
                    plan.symlinks.push((i, d));
                },
                EntryKind::Other => plan.files.push(i),
            }
        }
        i = i + 1;
    }
    assert(entries@.take(entries@.len() as int) =~= entries@);
    plan
}

/// The plan holds, in increasing order, exactly the indices of the entries
/// of each kind other than the root: directories in `dirs`, symlinks in
/// `symlinks` with the depth of their holding directory (one less than
/// their own, the root's children being held at depth 0), and all other
/// entries in `files`.
pub proof fn lemma_plan_sorts_entries(entries: Seq<WalkEntry>)
    requires
        entries.len() <= usize::MAX,
        forall|i: int| 0 <= i < entries.len() ==> entries[i].depth <= i32::MAX + 1,
    ensures
        ({
            let (d, f, s) = plan_of(entries);
            &&& forall|k: int| 0 <= k < d.len() ==> d[k] < entries.len() && !entries[d[k] as int].is_root
                && entries[d[k] as int].kind == EntryKind::Dir
            &&& forall|k: int| 0 <= k < f.len() ==> f[k] < entries.len() && !entries[f[k] as int].is_root
                && entries[f[k] as int].kind == EntryKind::Other
            &&& forall|k: int| 0 <= k < s.len() ==> s[k].0 < entries.len() && !entries[s[k].0 as int].is_root
                && entries[s[k].0 as int].kind == EntryKind::Symlink && s[k].1 == (if entries[s[k].0 as int].depth
                == 0 { 0 } else { entries[s[k].0 as int].depth - 1 })
            &&& forall|i: int| 0 <= i < entries.len() && !entries[i].is_root && entries[i].kind
                == EntryKind::Dir ==> exists|k: int| 0 <= k < d.len() && #[trigger] d[k] == i
            &&& forall|i: int| 0 <= i < entries.len() && !entries[i].is_root && entries[i].kind
                == EntryKind::Other ==> exists|k: int| 0 <= k < f.len() && #[trigger] f[k] == i
            &&& forall|i: int| 0 <= i < entries.len() && !entries[i].is_root && entries[i].kind
                == EntryKind::Symlink ==> exists|k: int| 0 <= k < s.len() && #[trigger] s[k].0 == i
            &&& forall|k1: int, k2: int| 0 <= k1 < k2 < d.len() ==> d[k1] < d[k2]
            &&& forall|k1: int, k2: int| 0 <= k1 < k2 < f.len() ==> f[k1] < f[k2]
            &&& forall|k1: int, k2: int| 0 <= k1 < k2 < s.len() ==> s[k1].0 < s[k2].0
        }),
    decreases entries.len(),
{
    if entries.len() > 0 {
        let prev = entries.drop_last();
        lemma_plan_sorts_entries(prev);
        let (d0, f0, s0) = plan_of(prev);
        let n = (entries.len() - 1) as int;
        let e = entries.last();
        assert(forall|i: int| 0 <= i < prev.len() ==> prev[i] == entries[i]);
        let (d, f, s) = plan_of(entries);
        if !e.is_root && e.kind == EntryKind::Symlink {
            assert(s == s0.push((n as usize, holder_depth(e.depth))));
            assert(s[s0.len() as int].0 == n);
            assert forall|i: int| 0 <= i < entries.len() && !entries[i].is_root && entries[i].kind
                == EntryKind::Symlink implies exists|k: int| 0 <= k < s.len() && #[trigger] s[k].0 == i by {
                if i < n {
                    let k = choose|k: int| 0 <= k < s0.len() && #[trigger] s0[k].0 == i;
                    assert(s[k] == s0[k]);
                }
            }
        } else {
            assert forall|i: int| 0 <= i < entries.len() && !entries[i].is_root && entries[i].kind
                == EntryKind::Symlink implies exists|k: int| 0 <= k < s.len() && #[trigger] s[k].0 == i by {
                let k = choose|k: int| 0 <= k < s0.len() && #[trigger] s0[k].0 == i;
                assert(s[k] == s0[k]);
            }
        }
        assert forall|i: int| 0 <= i < entries.len() && !entries[i].is_root && entries[i].kind
            == EntryKind::Dir implies exists|k: int| 0 <= k < d.len() && #[trigger] d[k] == i by {
            if i < n {
                let k = choose|k: int| 0 <= k < d0.len() && #[trigger] d0[k] == i;
                assert(d[k] == d0[k]);
            } else {
                assert(d[d0.len() as int] == i);
            }
        }
        assert forall|i: int| 0 <= i < entries.len() && !entries[i].is_root && entries[i].kind
            == EntryKind::Other implies exists|k: int| 0 <= k < f.len() && #[trigger] f[k] == i by {
            if i < n {
                let k = choose|k: int| 0 <= k < f0.len() && #[trigger] f0[k] == i;
                assert(f[k] == f0[k]);
            } else {
                assert(f[f0.len() as int] == i);
            }
        }
    }
}

} // verus!
