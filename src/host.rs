use crate::lifecycle::{error_of, plan_of, Command, CommandSpec, Operation, OperationSpec, VaultError};
use crate::naming::{mapped_path, mapped_path_of};
use crate::session::{Session, Step};
use vstd::prelude::*;

verus! {

/// The state of the outside world that a transition acts on: the opened
/// encrypted volumes, keyed by mapped device path with the raw device as
/// value, and the mount table, keyed by target with the source as value.
pub struct HostState {
    pub opened: Map<Seq<char>, Seq<char>>,
    pub mounted: Map<Seq<char>, Seq<char>>,
}

/// Whether some mount has `device` as its source.
pub open spec fn is_busy(h: HostState, device: Seq<char>) -> bool {
    exists|t: Seq<char>| h.mounted.contains_key(t) && h.mounted[t] == device
}

/// Every mounted source is an opened mapped device.
pub open spec fn consistent(h: HostState) -> bool {
    forall|t: Seq<char>| h.mounted.contains_key(t) ==> h.opened.contains_key(#[trigger] h.mounted[t])
}

/// Whether `op` succeeds on `h`, and the state after it. A failed operation
/// changes nothing. Opening fails where the mapped name is taken, closing
/// where the device is not open or still mounted, mounting where the source
/// is not an opened device or the target is taken, unmounting where the
/// target is not mounted.
pub open spec fn apply(h: HostState, op: OperationSpec) -> (bool, HostState) {
    match op {
        OperationSpec::Format { .. } => (true, h),
        OperationSpec::Open { device, name } => {
            let m = mapped_path_of(name);
            if h.opened.contains_key(m) {
                (false, h)
            } else {
                (true, HostState { opened: h.opened.insert(m, device), ..h })
            }
        },
        OperationSpec::BuildFilesystem { device } => (h.opened.contains_key(device), h),
        OperationSpec::CreateDir { .. } => (true, h),
        OperationSpec::Mount { source, target } => {
            if h.opened.contains_key(source) && !h.mounted.contains_key(target) {
                (true, HostState { mounted: h.mounted.insert(target, source), ..h })
            } else {
                (false, h)
            }
        },
        OperationSpec::Unmount { target } => {
            if h.mounted.contains_key(target) {
                (true, HostState { mounted: h.mounted.remove(target), ..h })
            } else {
                (false, h)
            }
        },
        OperationSpec::Close { device } => {
            if h.opened.contains_key(device) && !is_busy(h, device) {
                (true, HostState { opened: h.opened.remove(device), ..h })
            } else {
                (false, h)
            }
        },
    }
}

/// Runs `ops` in order on `h` up to the first failure.
pub open spec fn run_ops(ops: Seq<OperationSpec>, h: HostState) -> (Result<(), VaultError>, HostState)
    decreases ops.len(),
{
    if ops.len() == 0 {
        (Ok(()), h)
    } else {
        let (ok, next) = apply(h, ops[0]);
        if ok {
            run_ops(ops.drop_first(), next)
        } else {
            (Err(error_of(ops[0])), h)
        }
    }
}

/// The result of the transition `cmd` on `h`, and the state after it.
pub open spec fn run_command(cmd: CommandSpec, h: HostState) -> (Result<(), VaultError>, HostState) {
    match plan_of(cmd) {
        Ok(ops) => run_ops(ops, h),
        Err(e) => (Err(e), h),
    }
}

proof fn lemma_run_ops_at(ops: Seq<OperationSpec>, d: int, h: HostState)
    requires
        0 <= d < ops.len(),
    ensures
        run_ops(ops.skip(d), h) == (if apply(h, ops[d]).0 {
            run_ops(ops.skip(d + 1), apply(h, ops[d]).1)
        } else {
            (Err(error_of(ops[d])), h)
        }),
{
    assert(ops.skip(d)[0] == ops[d]);
    assert(ops.skip(d).drop_first() =~= ops.skip(d + 1));
}

/// A key and its value in a table of the in-memory host.
pub struct Entry {
    pub key: String,
    pub value: String,
}

/// The map that `s` holds; a later entry wins over an earlier one.
pub open spec fn entries_map(s: Seq<Entry>) -> Map<Seq<char>, Seq<char>>
    decreases s.len(),
{
    if s.len() == 0 {
        Map::empty()
    } else {
        entries_map(s.drop_last()).insert(s.last().key@, s.last().value@)
    }
}

/// No key occurs twice in `s`.
pub open spec fn keys_unique(s: Seq<Entry>) -> bool {
    forall|i: int, j: int| 0 <= i < j < s.len() ==> s[i].key@ != s[j].key@
}

/// `s` without its entries under `k`.
pub open spec fn without(s: Seq<Entry>, k: Seq<char>) -> Seq<Entry>
    decreases s.len(),
{
    if s.len() == 0 {
        s
    } else if s.last().key@ == k {
        without(s.drop_last(), k)
    } else {
        without(s.drop_last(), k).push(s.last())
    }
}

proof fn lemma_entries_contains(s: Seq<Entry>, k: Seq<char>)
    ensures
        entries_map(s).contains_key(k) <==> exists|i: int| 0 <= i < s.len() && s[i].key@ == k,
    decreases s.len(),
{
    if s.len() > 0 {
        let q = s.drop_last();
        lemma_entries_contains(q, k);
        if entries_map(q).contains_key(k) {
            let i = choose|i: int| 0 <= i < q.len() && q[i].key@ == k;
            assert(s[i] == q[i]);
        }
        if exists|i: int| 0 <= i < s.len() && s[i].key@ == k {
            let i = choose|i: int| 0 <= i < s.len() && s[i].key@ == k;
            if i < q.len() {
                assert(q[i] == s[i]);
            }
        }
    }
}

proof fn lemma_entries_value(s: Seq<Entry>, i: int)
    requires
        keys_unique(s),
        0 <= i < s.len(),
    ensures
        entries_map(s).contains_key(s[i].key@),
        entries_map(s)[s[i].key@] == s[i].value@,
    decreases s.len(),
{
    let q = s.drop_last();
    if i < s.len() - 1 {
        assert(q[i] == s[i]);
        lemma_entries_value(q, i);
    }
}

proof fn lemma_without(s: Seq<Entry>, k: Seq<char>)
    ensures
        entries_map(without(s, k)) == entries_map(s).remove(k),
        keys_unique(s) ==> keys_unique(without(s, k)),
        forall|j: int|
            0 <= j < without(s, k).len() ==> exists|i: int|
                0 <= i < s.len() && s[i] == #[trigger] without(s, k)[j],
    decreases s.len(),
{
    if s.len() == 0 {
        assert(entries_map(s).remove(k) =~= entries_map(s));
    } else {
        let q = s.drop_last();
        lemma_without(q, k);
        let w = without(q, k);
        assert forall|j: int| 0 <= j < without(s, k).len() implies exists|i: int|
            0 <= i < s.len() && s[i] == #[trigger] without(s, k)[j] by {
            if j < w.len() {
                let i = choose|i: int| 0 <= i < q.len() && q[i] == w[j];
                assert(s[i] == q[i]);
            } else {
                assert(s[s.len() - 1] == without(s, k)[j]);
            }
        }
        if s.last().key@ == k {
            assert(entries_map(s).remove(k) =~= entries_map(q).remove(k));
        } else {
            assert(without(s, k).drop_last() =~= w);
            assert(without(s, k).last() == s.last());
            assert(entries_map(without(s, k)) =~= entries_map(s).remove(k));
            if keys_unique(s) {
                assert forall|a: int, b: int|
                    0 <= a < b < without(s, k).len() implies without(s, k)[a].key@ != without(
                    s,
                    k,
                )[b].key@ by {
                    if b < w.len() {
                    } else {
                        let i = choose|i: int| 0 <= i < q.len() && q[i] == w[a];
                        assert(s[i] == q[i]);
                    }
                }
            }
        }
    }
}

/// Whether `s` holds an entry under `k`.
fn has_key(s: &Vec<Entry>, k: &String) -> (r: bool)
    ensures
        r == entries_map(s@).contains_key(k@),
{
    let mut i: usize = 0;
    while i < s.len()
        invariant
            i <= s@.len(),
            forall|j: int| 0 <= j < i ==> s@[j].key@ != k@,
        decreases s@.len() - i,
    {
        if s[i].key == *k {
            proof {
                lemma_entries_contains(s@, k@);
            }
            return true;
        }
        i = i + 1;
    }
    proof {
        lemma_entries_contains(s@, k@);
    }
    false
}

/// Whether some entry of `s` has the value `v`.
fn has_value(s: &Vec<Entry>, v: &String) -> (r: bool)
    requires
        keys_unique(s@),
    ensures
        r == exists|t: Seq<char>| entries_map(s@).contains_key(t) && entries_map(s@)[t] == v@,
{
    let mut i: usize = 0;
    while i < s.len()
        invariant
            keys_unique(s@),
            i <= s@.len(),
            forall|j: int| 0 <= j < i ==> s@[j].value@ != v@,
        decreases s@.len() - i,
    {
        if s[i].value == *v {
            proof {
                lemma_entries_value(s@, i as int);
            }
            return true;
        }
        i = i + 1;
    }
    proof {
        assert forall|t: Seq<char>| entries_map(s@).contains_key(t) implies entries_map(s@)[t]
            != v@ by {
            lemma_entries_contains(s@, t);
            let j = choose|j: int| 0 <= j < s@.len() && s@[j].key@ == t;
            lemma_entries_value(s@, j);
        }
    }
    false
}

/// `s` without its entries under `k`.
fn remove_key(s: &Vec<Entry>, k: &String) -> (r: Vec<Entry>)
    ensures
        r@ == without(s@, k@),
{
    let mut r: Vec<Entry> = Vec::new();
    let mut i: usize = 0;
    while i < s.len()
        invariant
            i <= s@.len(),
            r@ == without(s@.subrange(0, i as int), k@),
        decreases s@.len() - i,
    {
        proof {
            assert(s@.subrange(0, i + 1).drop_last() =~= s@.subrange(0, i as int));
        }
        if s[i].key != *k {
            r.push(Entry { key: s[i].key.clone(), value: s[i].value.clone() });
        }
        i = i + 1;
    }
    proof {
        assert(s@.subrange(0, s@.len() as int) =~= s@);
    }
    r
}

/// A host whose volumes and mount table live in memory: it performs each
/// operation as [`apply`] states, and touches no device.
pub struct MemoryHost {
    opened: Vec<Entry>,
    mounted: Vec<Entry>,
}

impl View for MemoryHost {
    type V = HostState;

    closed spec fn view(&self) -> HostState {
        HostState { opened: entries_map(self.opened@), mounted: entries_map(self.mounted@) }
    }
}

impl MemoryHost {
    /// Both tables hold each key once.
    pub closed spec fn wf(&self) -> bool {
        keys_unique(self.opened@) && keys_unique(self.mounted@)
    }

    /// A host with no opened volume and nothing mounted.
    pub fn new() -> (r: MemoryHost)
        ensures
            r.wf(),
            r@.opened == Map::<Seq<char>, Seq<char>>::empty(),
            r@.mounted == Map::<Seq<char>, Seq<char>>::empty(),
    {
        MemoryHost { opened: Vec::new(), mounted: Vec::new() }
    }

    /// Runs the transition `cmd` on this host, operation by operation, up to
    /// the first failure.
    pub fn run(&mut self, cmd: &Command) -> (r: Result<(), VaultError>)
        requires
            old(self).wf(),
        ensures
            final(self).wf(),
            (r, final(self)@) == run_command(cmd@, old(self)@),
    {
        let ghost h0 = self@;
        let mut session = match Session::start(cmd) {
            Ok(s) => s,
            Err(e) => return Err(e),
        };
        proof {
            assert(session@.ops.skip(0) =~= session@.ops);
        }
        loop
            invariant
                h0 == old(self)@,
                self.wf(),
                session.wf(),
                plan_of(cmd@) == Ok::<Seq<OperationSpec>, VaultError>(session@.ops),
                session@.failed is None ==> run_command(cmd@, h0) == run_ops(
                    session@.ops.skip(session@.done as int),
                    self@,
                ),
                session@.failed matches Some(e) ==> run_command(cmd@, h0) == (
                    Err::<(), VaultError>(e),
                    self@,
                ),
            decreases session@.ops.len() - session@.done + (if session@.failed is None {
                1int
            } else {
                0int
            }),
        {
            match session.next_step() {
                Step::Run(op) => {
                    let ghost before = self@;
                    let ghost d = session@.done as int;
                    proof {
                        lemma_run_ops_at(session@.ops, d, before);
                    }
                    let ok = self.perform(&op);
                    session.record(ok);
                },
                Step::Finished => {
                    proof {
                        assert(session@.ops.skip(session@.done as int).len() == 0);
                    }
                    return Ok(());
                },
                Step::Failed(e) => {
                    return Err(e);
                },
            }
        }
    }

    /// Performs `op`, reporting whether it succeeded.
    pub fn perform(&mut self, op: &Operation) -> (r: bool)
        requires
            old(self).wf(),
        ensures
            final(self).wf(),
            (r, final(self)@) == apply(old(self)@, op@),
    {
        match op {
            Operation::Format { .. } => true,
            Operation::Open { device, name } => {
                let m = mapped_path(name.as_str());
                if has_key(&self.opened, &m) {
                    false
                } else {
                    proof {
                        lemma_entries_contains(self.opened@, m@);
                    }
                    let ghost before = self.opened@;
                    self.opened.push(Entry { key: m, value: device.clone() });
                    assert(self.opened@.drop_last() =~= before);
                    true
                }
            },
            Operation::BuildFilesystem { device } => has_key(&self.opened, device),
            Operation::CreateDir { .. } => true,
            Operation::Mount { source, target } => {
                if has_key(&self.opened, source) && !has_key(&self.mounted, target) {
                    proof {
                        lemma_entries_contains(self.mounted@, target@);
                    }
                    let ghost before = self.mounted@;
                    self.mounted.push(Entry { key: target.clone(), value: source.clone() });
                    assert(self.mounted@.drop_last() =~= before);
                    true
                } else {
                    false
                }
            },
            Operation::Unmount { target } => {
                if has_key(&self.mounted, target) {
                    proof {
                        lemma_without(self.mounted@, target@);
                    }
                    self.mounted = remove_key(&self.mounted, target);
                    true
                } else {
                    false
                }
            },
            Operation::Close { device } => {
                if has_key(&self.opened, device) && !has_value(&self.mounted, device) {
                    proof {
                        lemma_without(self.opened@, device@);
                    }
                    self.opened = remove_key(&self.opened, device);
                    true
                } else {
                    false
                }
            },
        }
    }
}

} // verus!
