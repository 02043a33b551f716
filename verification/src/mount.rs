//! The mount-revert engine: given the active root provider, a modules-only
//! flag and a snapshot of the live mount table, computes the ordered list of
//! mount points to detach. Later table entries are typically nested under
//! earlier ones, so detachment order is exactly the reverse of table order;
//! the caller performs the actual lazy detach calls in that order.

use vstd::prelude::*;
use crate::bytes::{bytes_eq, copy_bytes, seqs_of, spec_starts_with, starts_with};

verus! {

/// The root-granting subsystem detected on the device. `Unknown` stands for
/// every state in which no supported provider was identified; the revert
/// engine must never be invoked in that state.
#[derive(Clone, Copy, Debug, PartialEq, Eq, Structural)]
pub enum RootImpl {
    APatch,
    KernelSU,
    Magisk,
    Unknown,
}

/// One row of the live mount table: the mount point, the source device or
/// tag when the kernel reports one, and the root of the mount inside its
/// source filesystem.
pub struct MountRecord {
    pub point: Vec<u8>,
    pub source: Option<Vec<u8>>,
    pub root: Vec<u8>,
}

/// The mathematical content of one mount record.
pub ghost struct MountRecordView {
    pub point: Seq<u8>,
    pub source: Option<Seq<u8>>,
    pub root: Seq<u8>,
}

impl View for MountRecord {
    type V = MountRecordView;

    open spec fn view(&self) -> MountRecordView {
        MountRecordView {
            point: self.point@,
            source: match self.source {
                Option::Some(s) => Option::Some(s@),
                Option::None => Option::None,
            },
            root: self.root@,
        }
    }
}

/// The views of a sequence of mount records.
pub open spec fn mount_views(ms: Seq<MountRecord>) -> Seq<MountRecordView> {
    ms.map_values(|m: MountRecord| m@)
}

/// The mount source tag `APatch`.
pub open spec fn apatch_tag() -> Seq<u8> {
    seq![65u8, 80u8, 97u8, 116u8, 99u8, 104u8]
}

/// The mount source tag `KSU`.
pub open spec fn ksu_tag() -> Seq<u8> {
    seq![75u8, 83u8, 85u8]
}

/// The mount source tag `magisk`.
pub open spec fn magisk_tag() -> Seq<u8> {
    seq![109u8, 97u8, 103u8, 105u8, 115u8, 107u8]
}

/// The debug ramdisk path prefix `/debug_ramdisk`.
pub open spec fn debug_ramdisk_prefix() -> Seq<u8> {
    seq![47u8, 100u8, 101u8, 98u8, 117u8, 103u8, 95u8, 114u8, 97u8, 109u8, 100u8, 105u8, 115u8, 107u8]
}

/// The modules overlay root prefix `/adb/modules`.
pub open spec fn modules_root_prefix() -> Seq<u8> {
    seq![47u8, 97u8, 100u8, 98u8, 47u8, 109u8, 111u8, 100u8, 117u8, 108u8, 101u8, 115u8]
}

/// The modules storage path prefix `/data/adb/modules`.
pub open spec fn modules_dir_prefix() -> Seq<u8> {
    seq![
        47u8,
        100u8,
        97u8,
        116u8,
        97u8,
        47u8,
        97u8,
        100u8,
        98u8,
        47u8,
        109u8,
        111u8,
        100u8,
        117u8,
        108u8,
        101u8,
        115u8,
    ]
}

/// The system binaries path prefix `/system/bin`.
pub open spec fn system_bin_prefix() -> Seq<u8> {
    seq![47u8, 115u8, 121u8, 115u8, 116u8, 101u8, 109u8, 47u8, 98u8, 105u8, 110u8]
}

/// The record's mount source is exactly `tag`.
pub open spec fn source_is(m: MountRecordView, tag: Seq<u8>) -> bool {
    m.source matches Option::Some(s) && s == tag
}

/// The provider-specific classification of one mount record: whether the
/// revert engine detaches it. With `modules_only`, only the injected debug
/// ramdisk (and, for the overlay provider, its system binary mounts) goes;
/// otherwise everything the provider mounted goes: its tagged mounts, the
/// module overlay roots and the module storage paths.
pub open spec fn spec_should_unmount(ri: RootImpl, modules_only: bool, m: MountRecordView) -> bool {
    match ri {
        RootImpl::APatch => {
            if modules_only {
                spec_starts_with(m.point, debug_ramdisk_prefix())
            } else {
                source_is(m, apatch_tag()) || spec_starts_with(m.root, modules_root_prefix())
                    || spec_starts_with(m.point, modules_dir_prefix())
            }
        },
        RootImpl::KernelSU => {
            if modules_only {
                spec_starts_with(m.point, debug_ramdisk_prefix())
            } else {
                source_is(m, ksu_tag()) || spec_starts_with(m.root, modules_root_prefix())
                    || spec_starts_with(m.point, modules_dir_prefix())
            }
        },
        RootImpl::Magisk => {
            if modules_only {
                spec_starts_with(m.point, debug_ramdisk_prefix()) || (source_is(m, magisk_tag())
                    && spec_starts_with(m.point, system_bin_prefix()))
            } else {
                source_is(m, magisk_tag()) || spec_starts_with(m.root, modules_root_prefix())
            }
        },
        RootImpl::Unknown => false,
    }
}

/// The mount points the revert engine detaches, in detachment order: the
/// points of the selected records, rightmost table entry first.
pub open spec fn spec_unmount_targets(
    ri: RootImpl,
    modules_only: bool,
    ms: Seq<MountRecordView>,
) -> Seq<Seq<u8>>
    decreases ms.len(),
{
    if ms.len() == 0 {
        Seq::<Seq<u8>>::empty()
    } else {
        spec_unmount_targets(ri, modules_only, ms.drop_first()) + (if spec_should_unmount(
            ri,
            modules_only,
            ms.first(),
        ) {
            seq![ms.first().point]
        } else {
            Seq::<Seq<u8>>::empty()
        })
    }
}

/// Ordering law: the detachment list is exactly the selected records'
/// mount points in the reverse of their mount-table order.
pub proof fn lemma_targets_are_reversed(ri: RootImpl, modules_only: bool, ms: Seq<MountRecordView>)
    ensures
        spec_unmount_targets(ri, modules_only, ms) == ms.filter(
            |m: MountRecordView| spec_should_unmount(ri, modules_only, m),
        ).map_values(|m: MountRecordView| m.point).reverse(),
    decreases ms.len(),
{
    broadcast use Seq::lemma_filter_prepend;

    let pred = |m: MountRecordView| spec_should_unmount(ri, modules_only, m);
    let pt = |m: MountRecordView| m.point;
    if ms.len() == 0 {
        assert(ms.filter(pred).map_values(pt).reverse() =~= Seq::<Seq<u8>>::empty());
    } else {
        let rest = ms.drop_first();
        lemma_targets_are_reversed(ri, modules_only, rest);
        assert(ms =~= seq![ms.first()] + rest);
        assert((seq![ms.first()] + rest).filter(pred) == if pred(ms.first()) {
            seq![ms.first()] + rest.filter(pred)
        } else {
            rest.filter(pred)
        });
        if pred(ms.first()) {
            assert((seq![ms.first()] + rest.filter(pred)).map_values(pt) =~= seq![ms.first().point]
                + rest.filter(pred).map_values(pt));
            assert((seq![ms.first().point] + rest.filter(pred).map_values(pt)).reverse()
                =~= rest.filter(pred).map_values(pt).reverse() + seq![ms.first().point]);
        } else {
            assert(spec_unmount_targets(ri, modules_only, ms) =~= spec_unmount_targets(
                ri,
                modules_only,
                rest,
            ));
        }
    }
}

/// Whether `m` holds the given source tag.
fn source_matches(m: &MountRecord, tag: &[u8]) -> (r: bool)
    ensures
        r == source_is(m@, tag@),
{
    match &m.source {
        Option::Some(s) => bytes_eq(s.as_slice(), tag),
        Option::None => false,
    }
}

/// The mount source tag `APatch`.
fn apatch_tag_bytes() -> (r: Vec<u8>)
    ensures
        r@ == apatch_tag(),
{
    let r: Vec<u8> = vec![65u8, 80u8, 97u8, 116u8, 99u8, 104u8];
    proof {
        assert(r@ =~= apatch_tag());
    }
    r
}

/// The mount source tag `KSU`.
fn ksu_tag_bytes() -> (r: Vec<u8>)
    ensures
        r@ == ksu_tag(),
{
    let r: Vec<u8> = vec![75u8, 83u8, 85u8];
    proof {
        assert(r@ =~= ksu_tag());
    }
    r
}

/// The mount source tag `magisk`.
fn magisk_tag_bytes() -> (r: Vec<u8>)
    ensures
        r@ == magisk_tag(),
{
    let r: Vec<u8> = vec![109u8, 97u8, 103u8, 105u8, 115u8, 107u8];
    proof {
        assert(r@ =~= magisk_tag());
    }
    r
}

/// The debug ramdisk path prefix `/debug_ramdisk`.
fn debug_ramdisk_prefix_bytes() -> (r: Vec<u8>)
    ensures
        r@ == debug_ramdisk_prefix(),
{
    let r: Vec<u8> = vec![
        47u8,
        100u8,
        101u8,
        98u8,
        117u8,
        103u8,
        95u8,
        114u8,
        97u8,
        109u8,
        100u8,
        105u8,
        115u8,
        107u8,
    ];
    proof {
        assert(r@ =~= debug_ramdisk_prefix());
    }
    r
}

/// The modules overlay root prefix `/adb/modules`.
fn modules_root_prefix_bytes() -> (r: Vec<u8>)
    ensures
        r@ == modules_root_prefix(),
{
    let r: Vec<u8> = vec![
        47u8,
        97u8,
        100u8,
        98u8,
        47u8,
        109u8,
        111u8,
        100u8,
        117u8,
        108u8,
        101u8,
        115u8,
    ];
    proof {
        assert(r@ =~= modules_root_prefix());
    }
    r
}

/// The modules storage path prefix `/data/adb/modules`.
fn modules_dir_prefix_bytes() -> (r: Vec<u8>)
    ensures
        r@ == modules_dir_prefix(),
{
    let r: Vec<u8> = vec![
        47u8,
        100u8,
        97u8,
        116u8,
        97u8,
        47u8,
        97u8,
        100u8,
        98u8,
        47u8,
        109u8,
        111u8,
        100u8,
        117u8,
        108u8,
        101u8,
        115u8,
    ];
    proof {
        assert(r@ =~= modules_dir_prefix());
    }
    r
}

/// The system binaries path prefix `/system/bin`.
fn system_bin_prefix_bytes() -> (r: Vec<u8>)
    ensures
        r@ == system_bin_prefix(),
{
    let r: Vec<u8> = vec![47u8, 115u8, 121u8, 115u8, 116u8, 101u8, 109u8, 47u8, 98u8, 105u8, 110u8];
    proof {
        assert(r@ =~= system_bin_prefix());
    }
    r
}

/// Classifies one mount record under the active provider.
pub fn should_unmount(ri: RootImpl, modules_only: bool, m: &MountRecord) -> (r: bool)
    ensures
        r == spec_should_unmount(ri, modules_only, m@),
{
    match ri {
        RootImpl::APatch => {
            if modules_only {
                starts_with(m.point.as_slice(), debug_ramdisk_prefix_bytes().as_slice())
            } else {
                source_matches(m, apatch_tag_bytes().as_slice()) || starts_with(
                    m.root.as_slice(),
                    modules_root_prefix_bytes().as_slice(),
                ) || starts_with(m.point.as_slice(), modules_dir_prefix_bytes().as_slice())
            }
        },
        RootImpl::KernelSU => {
            if modules_only {
                starts_with(m.point.as_slice(), debug_ramdisk_prefix_bytes().as_slice())
            } else {
                source_matches(m, ksu_tag_bytes().as_slice()) || starts_with(
                    m.root.as_slice(),
                    modules_root_prefix_bytes().as_slice(),
                ) || starts_with(m.point.as_slice(), modules_dir_prefix_bytes().as_slice())
            }
        },
        RootImpl::Magisk => {
            if modules_only {
                starts_with(m.point.as_slice(), debug_ramdisk_prefix_bytes().as_slice()) || (
                source_matches(m, magisk_tag_bytes().as_slice()) && starts_with(
                    m.point.as_slice(),
                    system_bin_prefix_bytes().as_slice(),
                ))
            } else {
                source_matches(m, magisk_tag_bytes().as_slice()) || starts_with(
                    m.root.as_slice(),
                    modules_root_prefix_bytes().as_slice(),
                )
            }
        },
        RootImpl::Unknown => false,
    }
}

/// Computes the mount points to detach, in detachment order: the selected
/// records' points, last table entry first. The revert engine must never
/// run under an unidentified provider, so that state is excluded here and
/// treated as a fatal inconsistency by the caller.
pub fn compute_unmount_targets(
    ri: RootImpl,
    modules_only: bool,
    mounts: &Vec<MountRecord>,
) -> (r: Vec<Vec<u8>>)
    requires
        !(ri is Unknown),
    ensures
        seqs_of(r@) == spec_unmount_targets(ri, modules_only, mount_views(mounts@)),
{
    let ghost mv = mount_views(mounts@);
    let mut out: Vec<Vec<u8>> = Vec::new();
    let mut i: usize = mounts.len();
    while i > 0
        invariant
            0 <= i <= mounts@.len(),
            mv == mount_views(mounts@),
            seqs_of(out@) == spec_unmount_targets(ri, modules_only, mv.skip(i as int)),
        decreases i,
    {
        let ghost pre_out = out@;
        i -= 1;
        if should_unmount(ri, modules_only, &mounts[i]) {
            let pt = copy_bytes(mounts[i].point.as_slice());
            out.push(pt);
        }
        proof {
            let suf = mv.skip(i as int);
            assert(suf.drop_first() =~= mv.skip(i as int + 1));
            assert(suf.first() == mv[i as int]);
            assert(mv[i as int] == mounts@[i as int]@);
            if spec_should_unmount(ri, modules_only, mv[i as int]) {
                assert(seqs_of(out@) =~~= seqs_of(pre_out) + seq![mv[i as int].point]);
            } else {
                assert(seqs_of(out@) =~~= seqs_of(pre_out));
                assert(seqs_of(pre_out) + Seq::<Seq<u8>>::empty() =~~= seqs_of(pre_out));
            }
            assert(seqs_of(out@) =~~= spec_unmount_targets(ri, modules_only, suf));
        }
    }
    proof {
        assert(mv.skip(0) =~= mv);
    }
    out
}

} // verus!
