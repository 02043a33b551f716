//! The namespace snapshot cache: three process-wide write-once slots, one
//! per namespace kind. A caller first asks for a plan: either the cached
//! handle, or instructions to create a namespace by the handshake (with the
//! revert engine run inside the child for the non-native kinds). The handle
//! the handshake produced is then committed to the slot, which is never
//! cleared or replaced afterwards: the open descriptor is what keeps the
//! kernel namespace alive for the daemon's lifetime.

use vstd::prelude::*;

verus! {

/// A write-once cell: empty until `init`, then holding one value forever.
pub struct LateInit<T> {
    cell: Option<T>,
}

impl<T> LateInit<T> {
    /// The cell has been initialized.
    pub closed spec fn initiated_spec(&self) -> bool {
        self.cell is Some
    }

    /// The value the cell was initialized with.
    pub closed spec fn value_spec(&self) -> T
        recommends
            self.initiated_spec(),
    {
        self.cell->Some_0
    }

    /// An empty cell.
    pub fn new() -> (r: Self)
        ensures
            !r.initiated_spec(),
    {
        LateInit { cell: Option::None }
    }

    /// Fills the cell, once; a second fill is excluded rather than allowed
    /// to fail at run time.
    pub fn init(&mut self, value: T)
        requires
            !old(self).initiated_spec(),
        ensures
            final(self).initiated_spec(),
            final(self).value_spec() == value,
    {
        self.cell = Option::Some(value);
    }

    /// Whether the cell has been filled.
    pub fn initiated(&self) -> (r: bool)
        ensures
            r == self.initiated_spec(),
    {
        self.cell.is_some()
    }

    /// The stored value.
    pub fn get(&self) -> (r: &T)
        requires
            self.initiated_spec(),
        ensures
            *r == self.value_spec(),
    {
        match &self.cell {
            Option::Some(v) => v,
            Option::None => unreached(),
        }
    }
}

/// Which of the three cached namespaces is requested: the unmodified view of
/// the target process, the provider's native view, or the module-reverted
/// view.
#[derive(Clone, Copy, Debug, PartialEq, Eq, Structural)]
pub enum NamespaceKind {
    Clean,
    Root,
    Module,
}

/// What a `get_or_create` caller must do for a kind: hand back the cached
/// handle, or run the handshake, reverting mounts inside the child as
/// instructed, and commit the resulting handle.
#[derive(Clone, Copy, Debug, PartialEq, Eq, Structural)]
pub enum SnapshotPlan {
    UseCached(i32),
    CreateNew { revert: bool, modules_only: bool },
}

/// The three write-once namespace handle slots. Handles are kernel file
/// descriptors referring to `/proc/<pid>/ns/mnt` files, held open forever.
pub struct NamespaceStore {
    clean: LateInit<i32>,
    root: LateInit<i32>,
    module: LateInit<i32>,
}

impl NamespaceStore {
    /// The slot for `kind` holds a handle.
    pub closed spec fn slot_initiated(&self, kind: NamespaceKind) -> bool {
        match kind {
            NamespaceKind::Clean => self.clean.initiated_spec(),
            NamespaceKind::Root => self.root.initiated_spec(),
            NamespaceKind::Module => self.module.initiated_spec(),
        }
    }

    /// The handle the slot for `kind` holds.
    pub closed spec fn slot_value(&self, kind: NamespaceKind) -> i32
        recommends
            self.slot_initiated(kind),
    {
        match kind {
            NamespaceKind::Clean => self.clean.value_spec(),
            NamespaceKind::Root => self.root.value_spec(),
            NamespaceKind::Module => self.module.value_spec(),
        }
    }

    /// A store with all three slots empty.
    pub fn new() -> (r: Self)
        ensures
            forall|k: NamespaceKind| !r.slot_initiated(k),
    {
        NamespaceStore { clean: LateInit::new(), root: LateInit::new(), module: LateInit::new() }
    }

    /// What a caller must do to obtain the handle of `kind`.
    pub fn plan_snapshot(&self, kind: NamespaceKind) -> (r: SnapshotPlan)
        ensures
            r == spec_plan(*self, kind),
    {
        let slot = match kind {
            NamespaceKind::Clean => &self.clean,
            NamespaceKind::Root => &self.root,
            NamespaceKind::Module => &self.module,
        };
        if slot.initiated() {
            SnapshotPlan::UseCached(*slot.get())
        } else {
            SnapshotPlan::CreateNew {
                revert: !(matches!(kind, NamespaceKind::Root)),
                modules_only: matches!(kind, NamespaceKind::Module),
            }
        }
    }

    /// Commits the handle the handshake produced for `kind`. The slot is
    /// write-once: committing twice for one kind is excluded, and the other
    /// slots are untouched.
    pub fn store_snapshot(&mut self, kind: NamespaceKind, handle: i32)
        requires
            !old(self).slot_initiated(kind),
        ensures
            final(self).slot_initiated(kind),
            final(self).slot_value(kind) == handle,
            forall|k: NamespaceKind|
                k != kind ==> #[trigger] final(self).slot_initiated(k) == old(self).slot_initiated(
                    k,
                ) && final(self).slot_value(k) == old(self).slot_value(k),
    {
        match kind {
            NamespaceKind::Clean => self.clean.init(handle),
            NamespaceKind::Root => self.root.init(handle),
            NamespaceKind::Module => self.module.init(handle),
        }
    }

    /// The cached handle of `kind`, if one was committed.
    pub fn cached_handle(&self, kind: NamespaceKind) -> (r: Option<i32>)
        ensures
            r == if self.slot_initiated(kind) {
                Option::Some(self.slot_value(kind))
            } else {
                Option::<i32>::None
            },
    {
        let slot = match kind {
            NamespaceKind::Clean => &self.clean,
            NamespaceKind::Root => &self.root,
            NamespaceKind::Module => &self.module,
        };
        if slot.initiated() {
            Option::Some(*slot.get())
        } else {
            Option::None
        }
    }
}

/// The plan for `kind` against `store`: the cached handle when the slot is
/// full, otherwise a creation order whose revert settings are fixed by the
/// kind alone (the native namespace is captured as it is; the clean one has
/// every module mount reverted; the module one only the modules-only set).
pub open spec fn spec_plan(store: NamespaceStore, kind: NamespaceKind) -> SnapshotPlan {
    if store.slot_initiated(kind) {
        SnapshotPlan::UseCached(store.slot_value(kind))
    } else {
        SnapshotPlan::CreateNew {
            revert: !(kind is Root),
            modules_only: kind is Module,
        }
    }
}

/// Write-once law: once a kind's slot holds a handle, every plan for that
/// kind — the first and every later one — answers with exactly that cached
/// handle; no further handshake is ever planned for it, so the underlying
/// subprocess spawn happens at most once per kind.
pub proof fn lemma_plan_stable(store: NamespaceStore, kind: NamespaceKind)
    requires
        store.slot_initiated(kind),
    ensures
        spec_plan(store, kind) == SnapshotPlan::UseCached(store.slot_value(kind)),
        !(spec_plan(store, kind) is CreateNew),
{
}

/// Creation law: a handshake is planned for a kind exactly when its slot is
/// still empty.
pub proof fn lemma_create_only_when_empty(store: NamespaceStore, kind: NamespaceKind)
    ensures
        spec_plan(store, kind) is CreateNew <==> !store.slot_initiated(kind),
{
}

/// Independence law: the creation orders of two different kinds are never
/// the same — each kind's namespace is built with its own revert settings,
/// so no kind can observe another kind's revert side effects by sharing a
/// creation.
pub proof fn lemma_fresh_plans_distinct(
    store: NamespaceStore,
    k1: NamespaceKind,
    k2: NamespaceKind,
)
    requires
        k1 != k2,
        !store.slot_initiated(k1),
        !store.slot_initiated(k2),
    ensures
        spec_plan(store, k1) != spec_plan(store, k2),
{
}

} // verus!
