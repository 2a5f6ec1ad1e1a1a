//! The mount view of an enclosure: which binds the child issues, in which
//! order, and how it leaves the host's root behind.
use vstd::prelude::*;
use crate::enclosure::RuleMode;
use crate::path::{SLASH, copy_bytes, join_onto, join_segment};

verus! {

/// A rule with its endpoints already expanded to absolute host paths.
pub struct ResolvedRule {
    pub mode: RuleMode,
    /// Where the program looks.
    pub target: Vec<u8>,
    /// Where the data really lives.
    pub rewrite: Vec<u8>,
}

/// One step of assembling the child's view.
#[derive(Debug)]
pub enum MountStep {
    /// Bind `src` recursively at `dst`, writable.
    BindRw { src: Vec<u8>, dst: Vec<u8> },
    /// Enter the root with `chroot`, keeping the old root reachable.
    Chroot(Vec<u8>),
    /// Make the root the new `/` and detach the old one.
    PivotRoot(Vec<u8>),
    /// Remount a path read-only.
    RemountRo(Vec<u8>),
}

/// A mount step over byte sequences.
pub ghost enum MountOp {
    BindRw(Seq<u8>, Seq<u8>),
    Chroot(Seq<u8>),
    PivotRoot(Seq<u8>),
    RemountRo(Seq<u8>),
}

impl View for MountStep {
    type V = MountOp;

    open spec fn view(&self) -> MountOp {
        match self {
            MountStep::BindRw { src, dst } => MountOp::BindRw(src@, dst@),
            MountStep::Chroot(p) => MountOp::Chroot(p@),
            MountStep::PivotRoot(p) => MountOp::PivotRoot(p@),
            MountStep::RemountRo(p) => MountOp::RemountRo(p@),
        }
    }
}

/// The host's `/`.
pub open spec fn host_root() -> Seq<u8> {
    seq![SLASH]
}

/// The bind of one rule: its rewrite at its target inside the root.
pub open spec fn rule_bind(root: Seq<u8>, target: Seq<u8>, rewrite: Seq<u8>) -> MountOp {
    MountOp::BindRw(rewrite, join_segment(root, target))
}

/// The view of an enclosure rooted at `root`: the host tree bound at the
/// root, then each rule's bind in order, then the switch of root (`chroot`
/// when tracing, else a pivot), then a read-only remount of `/` if asked.
pub open spec fn mount_ops(
    root: Seq<u8>,
    targets: Seq<Seq<u8>>,
    rewrites: Seq<Seq<u8>>,
    trace: bool,
    immutable_root: bool,
) -> Seq<MountOp> {
    seq![MountOp::BindRw(host_root(), root)] + Seq::new(
        targets.len(),
        |i: int| rule_bind(root, targets[i], rewrites[i]),
    ) + seq![if trace { MountOp::Chroot(root) } else { MountOp::PivotRoot(root) }] + if immutable_root {
        seq![MountOp::RemountRo(host_root())]
    } else {
        Seq::<MountOp>::empty()
    }
}

/// The targets of a list of rules.
pub open spec fn targets_of(rules: Seq<ResolvedRule>) -> Seq<Seq<u8>> {
    rules.map_values(|r: ResolvedRule| r.target@)
}

/// The rewrites of a list of rules.
pub open spec fn rewrites_of(rules: Seq<ResolvedRule>) -> Seq<Seq<u8>> {
    rules.map_values(|r: ResolvedRule| r.rewrite@)
}

/// The steps that assemble the view of the enclosure rooted at `root`.
pub fn mount_plan(root: &[u8], rules: &Vec<ResolvedRule>, trace: bool, immutable_root: bool) -> (r:
    Vec<MountStep>)
    ensures
        r@.map_values(|s: MountStep| s@) == mount_ops(
            root@,
            targets_of(rules@),
            rewrites_of(rules@),
            trace,
            immutable_root,
        ),
{
    let ghost targets = targets_of(rules@);
    let ghost rewrites = rewrites_of(rules@);
    let mut r: Vec<MountStep> = Vec::new();
    let slash: Vec<u8> = vec![SLASH];
    assert(slash@ =~= host_root());
    r.push(MountStep::BindRw { src: slash, dst: copy_bytes(root) });
    let n = rules.len();
    let mut i: usize = 0;
    while i < n
        invariant
            i <= n,
            n == rules@.len(),
            targets == targets_of(rules@),
            rewrites == rewrites_of(rules@),
            r@.len() == 1 + i,
            r@[0]@ == MountOp::BindRw(host_root(), root@),
            forall|k: int|
                0 <= k < i ==> #[trigger] r@[1 + k]@ == rule_bind(root@, targets[k], rewrites[k]),
        decreases n - i,
    {
        let mut dst = copy_bytes(root);
        join_onto(&mut dst, rules[i].target.as_slice());
        let src = copy_bytes(rules[i].rewrite.as_slice());
        r.push(MountStep::BindRw { src, dst });
        i = i + 1;
    }
    if trace {
        r.push(MountStep::Chroot(copy_bytes(root)));
    } else {
        r.push(MountStep::PivotRoot(copy_bytes(root)));
    }
    if immutable_root {
        let slash: Vec<u8> = vec![SLASH];
        assert(slash@ =~= host_root());
        r.push(MountStep::RemountRo(slash));
    }
    let ghost ops = mount_ops(root@, targets, rewrites, trace, immutable_root);
    let ghost mapped = r@.map_values(|s: MountStep| s@);
    assert forall|k: int| 0 <= k < ops.len() implies mapped[k] == ops[k] by {
        if 1 <= k < 1 + n {
            assert(r@[1 + (k - 1)]@ == rule_bind(root@, targets[k - 1], rewrites[k - 1]));
        }
    }
    assert(mapped =~= ops);
    r
}

/// Every rule's rewrite is bound at its target inside the root, after the
/// host tree and before the root switch, so the child sees the rewrite's
/// contents at the target; with `immutable_root` the last step makes `/`
/// read-only, after every bind.
pub proof fn lemma_mount_plan_layers_rules(
    root: Seq<u8>,
    targets: Seq<Seq<u8>>,
    rewrites: Seq<Seq<u8>>,
    trace: bool,
    immutable_root: bool,
)
    ensures
        mount_ops(root, targets, rewrites, trace, immutable_root)[0] == MountOp::BindRw(
            host_root(),
            root,
        ),
        forall|i: int|
            0 <= i < targets.len() ==> mount_ops(root, targets, rewrites, trace, immutable_root)[1
                + i] == MountOp::BindRw(rewrites[i], join_segment(root, #[trigger] targets[i])),
        immutable_root ==> mount_ops(root, targets, rewrites, trace, immutable_root).last()
            == MountOp::RemountRo(host_root()),
        immutable_root ==> mount_ops(root, targets, rewrites, trace, immutable_root).len() == 3
            + targets.len(),
        !immutable_root ==> mount_ops(root, targets, rewrites, trace, immutable_root).len() == 2
            + targets.len(),
{
}

} // verus!
