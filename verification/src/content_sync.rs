//! Reconciling the content linked to a cluster with what lies on disk.
//!
//! Each linked artifact is looked for in the cluster's active content folder
//! and in its disabled folder. An artifact found in neither is unlinked; one
//! found in just one of them takes the enabled state that folder stands for;
//! the others are kept as they are. The file system probes and the database
//! writes belong to the caller, which hands over what it saw and carries out
//! the returned plan.

use vstd::prelude::*;

verus! {

/// What was observed of one linked artifact.
#[derive(Clone, Copy, Debug, PartialEq, Eq, Structural)]
pub struct ArtifactPresence {
    /// The artifact has the content type being listed.
    pub same_type: bool,
    /// The artifact is recorded as enabled.
    pub enabled: bool,
    /// Its file lies in the active content folder.
    pub in_active: bool,
    /// Its file lies in the disabled content folder.
    pub in_disabled: bool,
}

/// An artifact that stays in the listing, by its position in the input.
#[derive(Clone, Copy, Debug, PartialEq, Eq, Structural)]
pub struct KeptArtifact {
    pub index: usize,
    pub enabled: bool,
}

/// A database write that the reconciliation asks for.
#[derive(Clone, Copy, Debug, PartialEq, Eq, Structural)]
pub enum SyncAction {
    /// The artifact's file is gone: drop its link to the cluster.
    Unlink { index: usize },
    /// Record the artifact as enabled or disabled.
    SetEnabled { index: usize, enabled: bool },
}

/// The listing to show and the writes to make, both in input order.
#[derive(Debug, PartialEq, Eq)]
pub struct SyncPlan {
    pub kept: Vec<KeptArtifact>,
    pub actions: Vec<SyncAction>,
}

/// The file lies in at least one of the two folders.
pub open spec fn is_present(p: ArtifactPresence) -> bool {
    p.in_active || p.in_disabled
}

/// Enabled state after reconciliation: a file only in the disabled folder is
/// disabled, one only in the active folder is enabled, otherwise the record
/// stands.
pub open spec fn reconciled_enabled(p: ArtifactPresence) -> bool {
    if p.in_disabled && !p.in_active {
        false
    } else if p.in_active && !p.in_disabled {
        true
    } else {
        p.enabled
    }
}

/// Artifacts kept among the first `n`, with their reconciled state.
pub open spec fn kept_spec(items: Seq<ArtifactPresence>, n: nat) -> Seq<KeptArtifact>
    decreases n,
{
    if n == 0 {
        Seq::empty()
    } else {
        let k = (n - 1) as nat;
        let p = items[k as int];
        let rest = kept_spec(items, k);
        if p.same_type && is_present(p) {
            rest.push(KeptArtifact { index: k as usize, enabled: reconciled_enabled(p) })
        } else {
            rest
        }
    }
}

/// Writes asked for by the first `n` artifacts.
pub open spec fn actions_spec(items: Seq<ArtifactPresence>, n: nat) -> Seq<SyncAction>
    decreases n,
{
    if n == 0 {
        Seq::empty()
    } else {
        let k = (n - 1) as nat;
        let p = items[k as int];
        let rest = actions_spec(items, k);
        if !p.same_type {
            rest
        } else if !is_present(p) {
            rest.push(SyncAction::Unlink { index: k as usize })
        } else if reconciled_enabled(p) != p.enabled {
            rest.push(SyncAction::SetEnabled { index: k as usize, enabled: reconciled_enabled(p) })
        } else {
            rest
        }
    }
}

/// Artifacts of the listed type among the first `n`, as they are recorded.
pub open spec fn same_type_spec(items: Seq<ArtifactPresence>, n: nat) -> Seq<KeptArtifact>
    decreases n,
{
    if n == 0 {
        Seq::empty()
    } else {
        let k = (n - 1) as nat;
        let p = items[k as int];
        let rest = same_type_spec(items, k);
        if p.same_type {
            rest.push(KeptArtifact { index: k as usize, enabled: p.enabled })
        } else {
            rest
        }
    }
}

fn reconcile_one(p: ArtifactPresence) -> (e: bool)
    ensures
        e == reconciled_enabled(p),
{
    if p.in_disabled && !p.in_active {
        false
    } else if p.in_active && !p.in_disabled {
        true
    } else {
        p.enabled
    }
}

/// The reconciliation of `items` against the cluster's two content folders.
pub fn plan_content_sync(items: &Vec<ArtifactPresence>) -> (plan: SyncPlan)
    ensures
        plan.kept@ == kept_spec(items@, items@.len()),
        plan.actions@ == actions_spec(items@, items@.len()),
{
    let mut kept: Vec<KeptArtifact> = Vec::new();
    let mut actions: Vec<SyncAction> = Vec::new();
    let n = items.len();
    let mut i: usize = 0;
    while i < n
        invariant
            n == items@.len(),
            i <= n,
            kept@ == kept_spec(items@, i as nat),
            actions@ == actions_spec(items@, i as nat),
        decreases n - i,
    {
        let p = items[i];
        if p.same_type {
            if !p.in_active && !p.in_disabled {
                actions.push(SyncAction::Unlink { index: i });
            } else {
                let e = reconcile_one(p);
                if e != p.enabled {
                    actions.push(SyncAction::SetEnabled { index: i, enabled: e });
                }
                kept.push(KeptArtifact { index: i, enabled: e });
            }
        }
        i = i + 1;
    }
    SyncPlan { kept, actions }
}

/// The listing when the cluster's folders cannot be found: every artifact of
/// the listed type, as recorded, and no writes.
pub fn plan_without_folders(items: &Vec<ArtifactPresence>) -> (plan: SyncPlan)
    ensures
        plan.kept@ == same_type_spec(items@, items@.len()),
        plan.actions@.len() == 0,
{
    let mut kept: Vec<KeptArtifact> = Vec::new();
    let n = items.len();
    let mut i: usize = 0;
    while i < n
        invariant
            n == items@.len(),
            i <= n,
            kept@ == same_type_spec(items@, i as nat),
        decreases n - i,
    {
        let p = items[i];
        if p.same_type {
            kept.push(KeptArtifact { index: i, enabled: p.enabled });
        }
        i = i + 1;
    }
    SyncPlan { kept, actions: Vec::new() }
}

/// Without the folders the listing is every artifact of the listed type, in
/// order and as recorded, and nothing of another type.
pub proof fn lemma_listing_without_folders(items: Seq<ArtifactPresence>, n: nat)
    requires
        n <= items.len(),
        items.len() <= usize::MAX,
    ensures
        forall|k: int|
            0 <= k < same_type_spec(items, n).len() ==> {
                let e = #[trigger] same_type_spec(items, n)[k];
                &&& e.index < n
                &&& items[e.index as int].same_type
                &&& e.enabled == items[e.index as int].enabled
            },
        forall|k: int, l: int|
            0 <= k < l < same_type_spec(items, n).len() ==> same_type_spec(items, n)[k].index
                < same_type_spec(items, n)[l].index,
        forall|i: int|
            0 <= i < n && (#[trigger] items[i]).same_type ==> exists|k: int|
                0 <= k < same_type_spec(items, n).len() && (#[trigger] same_type_spec(
                    items,
                    n,
                )[k]).index == i,
    decreases n,
{
    if n > 0 {
        let m = (n - 1) as nat;
        lemma_listing_without_folders(items, m);
        let sn = same_type_spec(items, n);
        let sm = same_type_spec(items, m);
        assert forall|k: int| 0 <= k < sm.len() implies #[trigger] sn[k] == sm[k] by {}
        assert forall|i: int| 0 <= i < n && (#[trigger] items[i]).same_type implies exists|k: int|
            0 <= k < sn.len() && (#[trigger] sn[k]).index == i by {
            if i < m {
                let k = choose|k: int| 0 <= k < sm.len() && (#[trigger] sm[k]).index == i;
                assert(sn[k] == sm[k]);
            } else {
                assert(sn[sn.len() - 1].index == i);
            }
        }
    }
}

/// The artifact as a second reconciliation sees it: with the state the first
/// one gave it.
pub open spec fn settled(items: Seq<ArtifactPresence>, k: KeptArtifact) -> ArtifactPresence {
    ArtifactPresence { enabled: k.enabled, ..items[k.index as int] }
}

/// What a second reconciliation is handed: the kept artifacts, in order, with
/// their reconciled state and the files where they were.
pub open spec fn settled_items(items: Seq<ArtifactPresence>) -> Seq<ArtifactPresence> {
    kept_spec(items, items.len()).map_values(|k: KeptArtifact| settled(items, k))
}

proof fn lemma_prefix_determines(a: Seq<ArtifactPresence>, b: Seq<ArtifactPresence>, n: nat)
    requires
        n <= a.len(),
        n <= b.len(),
        forall|i: int| 0 <= i < n ==> a[i] == b[i],
    ensures
        kept_spec(a, n) == kept_spec(b, n),
        actions_spec(a, n) == actions_spec(b, n),
    decreases n,
{
    if n > 0 {
        lemma_prefix_determines(a, b, (n - 1) as nat);
    }
}

proof fn lemma_kept_facts(items: Seq<ArtifactPresence>, n: nat)
    requires
        n <= items.len(),
        items.len() <= usize::MAX,
    ensures
        forall|k: int|
            0 <= k < kept_spec(items, n).len() ==> {
                let e = #[trigger] kept_spec(items, n)[k];
                &&& e.index < n
                &&& items[e.index as int].same_type
                &&& is_present(items[e.index as int])
                &&& e.enabled == reconciled_enabled(items[e.index as int])
            },
        forall|k: int, l: int|
            0 <= k < l < kept_spec(items, n).len() ==> kept_spec(items, n)[k].index
                < kept_spec(items, n)[l].index,
    decreases n,
{
    if n > 0 {
        let m = (n - 1) as nat;
        lemma_kept_facts(items, m);
        let kn = kept_spec(items, n);
        let km = kept_spec(items, m);
        assert forall|k: int| 0 <= k < km.len() implies #[trigger] kn[k] == km[k] by {}
    }
}

/// Every artifact of the listed type is either kept or unlinked, never both;
/// a kept artifact is recorded enabled exactly when its file lies only in the
/// active folder, if it lies in just one; and a write to its state is asked
/// for exactly when that state changes.
pub proof fn lemma_sync_accounts_for_every_artifact(items: Seq<ArtifactPresence>, i: int)
    requires
        items.len() <= usize::MAX,
        0 <= i < items.len(),
        items[i].same_type,
    ensures
        (exists|k: int|
            0 <= k < kept_spec(items, items.len()).len() && (#[trigger] kept_spec(
                items,
                items.len(),
            )[k]).index == i) <==> is_present(items[i]),
        actions_spec(items, items.len()).contains(SyncAction::Unlink { index: i as usize })
            <==> !is_present(items[i]),
        is_present(items[i]) && items[i].in_active != items[i].in_disabled ==> reconciled_enabled(
            items[i],
        ) == items[i].in_active,
        actions_spec(items, items.len()).contains(
            SyncAction::SetEnabled { index: i as usize, enabled: !items[i].enabled },
        ) <==> (is_present(items[i]) && reconciled_enabled(items[i]) != items[i].enabled),
{
    lemma_membership(items, items.len(), i);
}

proof fn lemma_membership(items: Seq<ArtifactPresence>, n: nat, i: int)
    requires
        n <= items.len(),
        items.len() <= usize::MAX,
        0 <= i < items.len(),
        items[i].same_type,
    ensures
        (exists|k: int|
            0 <= k < kept_spec(items, n).len() && (#[trigger] kept_spec(items, n)[k]).index == i)
            <==> (i < n && is_present(items[i])),
        actions_spec(items, n).contains(SyncAction::Unlink { index: i as usize }) <==> (i < n
            && !is_present(items[i])),
        actions_spec(items, n).contains(
            SyncAction::SetEnabled { index: i as usize, enabled: !items[i].enabled },
        ) <==> (i < n && is_present(items[i]) && reconciled_enabled(items[i])
            != items[i].enabled),
    decreases n,
{
    lemma_kept_facts(items, n);
    lemma_action_indices(items, n);
    if n > 0 {
        let m = (n - 1) as nat;
        lemma_membership(items, m, i);
        lemma_kept_facts(items, m);
        let kn = kept_spec(items, n);
        let km = kept_spec(items, m);
        let an = actions_spec(items, n);
        let am = actions_spec(items, m);
        let p = items[m as int];
        if i < m {
            if exists|k: int| 0 <= k < km.len() && (#[trigger] km[k]).index == i {
                let k = choose|k: int| 0 <= k < km.len() && (#[trigger] km[k]).index == i;
                assert(kn[k] == km[k]);
            }
            if am.contains(SyncAction::Unlink { index: i as usize }) {
                let j = choose|j: int| 0 <= j < am.len() && am[j] == SyncAction::Unlink { index: i as usize };
                assert(an[j] == am[j]);
            }
            if am.contains(SyncAction::SetEnabled { index: i as usize, enabled: !items[i].enabled }) {
                let j = choose|j: int| 0 <= j < am.len() && am[j] == SyncAction::SetEnabled { index: i as usize, enabled: !items[i].enabled };
                assert(an[j] == am[j]);
            }
        } else if i == m {
            if is_present(p) {
                assert(kn[kn.len() - 1].index == i);
            } else {
                assert(an[an.len() - 1] == SyncAction::Unlink { index: i as usize });
            }
            if is_present(p) && reconciled_enabled(p) != p.enabled {
                assert(an[an.len() - 1] == SyncAction::SetEnabled { index: i as usize, enabled: !items[i].enabled });
            }
        }
    }
}

proof fn lemma_action_indices(items: Seq<ArtifactPresence>, n: nat)
    requires
        n <= items.len(),
        items.len() <= usize::MAX,
    ensures
        forall|j: int|
            0 <= j < actions_spec(items, n).len() ==> match #[trigger] actions_spec(items, n)[j] {
                SyncAction::Unlink { index } => index < n,
                SyncAction::SetEnabled { index, .. } => index < n,
            },
    decreases n,
{
    if n > 0 {
        let m = (n - 1) as nat;
        lemma_action_indices(items, m);
        let an = actions_spec(items, n);
        let am = actions_spec(items, m);
        assert forall|j: int| 0 <= j < am.len() implies #[trigger] an[j] == am[j] by {}
    }
}

/// The reconciliation writes only for artifacts of the listed type, and only
/// what their files call for: each write names an artifact of that type; it
/// unlinks one exactly whose file lies in neither folder; it sets the state of
/// one whose file lies in just one of the folders, to enabled exactly when
/// that is the active folder, and only when the record says otherwise. Each
/// kept artifact is one of the listed type whose file lies somewhere, shown
/// enabled as its folder says when it lies in just one, else as recorded.
/// And nothing of the listed type is passed over: such an artifact whose
/// file lies somewhere is kept, one whose file lies nowhere is unlinked, and
/// one whose folder disagrees with its record gets the folder's state.
pub proof fn lemma_sync_writes_only_what_the_files_call_for(items: Seq<ArtifactPresence>)
    requires
        items.len() <= usize::MAX,
    ensures
        forall|j: int|
            0 <= j < actions_spec(items, items.len()).len() ==> match #[trigger] actions_spec(
                items,
                items.len(),
            )[j] {
                SyncAction::Unlink { index } => {
                    &&& index < items.len()
                    &&& items[index as int].same_type
                    &&& !items[index as int].in_active
                    &&& !items[index as int].in_disabled
                },
                SyncAction::SetEnabled { index, enabled } => {
                    &&& index < items.len()
                    &&& items[index as int].same_type
                    &&& items[index as int].in_active != items[index as int].in_disabled
                    &&& enabled == items[index as int].in_active
                    &&& enabled != items[index as int].enabled
                },
            },
        forall|k: int|
            0 <= k < kept_spec(items, items.len()).len() ==> {
                let e = #[trigger] kept_spec(items, items.len())[k];
                let p = items[e.index as int];
                &&& e.index < items.len()
                &&& p.same_type
                &&& p.in_active || p.in_disabled
                &&& e.enabled == if p.in_active != p.in_disabled {
                    p.in_active
                } else {
                    p.enabled
                }
            },
        forall|i: int|
            0 <= i < items.len() && (#[trigger] items[i]).same_type ==> {
                &&& (items[i].in_active || items[i].in_disabled) ==> exists|k: int|
                    0 <= k < kept_spec(items, items.len()).len() && (#[trigger] kept_spec(
                        items,
                        items.len(),
                    )[k]).index == i
                &&& (!items[i].in_active && !items[i].in_disabled) ==> actions_spec(
                    items,
                    items.len(),
                ).contains(SyncAction::Unlink { index: i as usize })
                &&& (items[i].in_active != items[i].in_disabled && items[i].in_active
                    != items[i].enabled) ==> actions_spec(items, items.len()).contains(
                    SyncAction::SetEnabled { index: i as usize, enabled: items[i].in_active },
                )
            },
{
    lemma_kept_facts(items, items.len());
    lemma_actions_follow_files(items, items.len());
    assert forall|i: int| 0 <= i < items.len() && (#[trigger] items[i]).same_type implies {
        &&& (items[i].in_active || items[i].in_disabled) ==> exists|k: int|
            0 <= k < kept_spec(items, items.len()).len() && (#[trigger] kept_spec(
                items,
                items.len(),
            )[k]).index == i
        &&& (!items[i].in_active && !items[i].in_disabled) ==> actions_spec(
            items,
            items.len(),
        ).contains(SyncAction::Unlink { index: i as usize })
        &&& (items[i].in_active != items[i].in_disabled && items[i].in_active
            != items[i].enabled) ==> actions_spec(items, items.len()).contains(
            SyncAction::SetEnabled { index: i as usize, enabled: items[i].in_active },
        )
    } by {
        lemma_membership(items, items.len(), i);
    }
}

proof fn lemma_actions_follow_files(items: Seq<ArtifactPresence>, n: nat)
    requires
        n <= items.len(),
        items.len() <= usize::MAX,
    ensures
        forall|j: int|
            0 <= j < actions_spec(items, n).len() ==> match #[trigger] actions_spec(items, n)[j] {
                SyncAction::Unlink { index } => {
                    &&& index < n
                    &&& items[index as int].same_type
                    &&& !items[index as int].in_active
                    &&& !items[index as int].in_disabled
                },
                SyncAction::SetEnabled { index, enabled } => {
                    &&& index < n
                    &&& items[index as int].same_type
                    &&& items[index as int].in_active != items[index as int].in_disabled
                    &&& enabled == items[index as int].in_active
                    &&& enabled != items[index as int].enabled
                },
            },
    decreases n,
{
    if n > 0 {
        let m = (n - 1) as nat;
        lemma_actions_follow_files(items, m);
        let an = actions_spec(items, n);
        let am = actions_spec(items, m);
        assert forall|j: int| 0 <= j < am.len() implies #[trigger] an[j] == am[j] by {}
    }
}

/// Reconciliation settles at once: handed again what it kept, with the
/// state it gave them and the files where they were, it keeps every one of
/// them as it is and asks for no write.
pub proof fn lemma_sync_settles(items: Seq<ArtifactPresence>)
    requires
        items.len() <= usize::MAX,
    ensures
        ({
            let next = settled_items(items);
            &&& actions_spec(next, next.len()) == Seq::<SyncAction>::empty()
            &&& kept_spec(next, next.len()).len() == next.len()
            &&& forall|k: int|
                0 <= k < next.len() ==> #[trigger] kept_spec(next, next.len())[k]
                    == KeptArtifact { index: k as usize, enabled: next[k].enabled }
        }),
{
    lemma_settles_prefix(items, items.len());
}

proof fn lemma_settles_prefix(items: Seq<ArtifactPresence>, n: nat)
    requires
        n <= items.len(),
        items.len() <= usize::MAX,
    ensures
        ({
            let next = kept_spec(items, n).map_values(|k: KeptArtifact| settled(items, k));
            &&& actions_spec(next, next.len()) == Seq::<SyncAction>::empty()
            &&& kept_spec(next, next.len()).len() == next.len()
            &&& forall|k: int|
                0 <= k < next.len() ==> #[trigger] kept_spec(next, next.len())[k]
                    == KeptArtifact { index: k as usize, enabled: next[k].enabled }
        }),
    decreases n,
{
    lemma_kept_facts(items, n);
    if n > 0 {
        let m = (n - 1) as nat;
        lemma_settles_prefix(items, m);
        let f = |k: KeptArtifact| settled(items, k);
        let prev = kept_spec(items, m).map_values(f);
        let next = kept_spec(items, n).map_values(f);
        let p = items[m as int];
        if p.same_type && is_present(p) {
            let x = settled(items, KeptArtifact { index: m as usize, enabled: reconciled_enabled(p) });
            assert(next =~= prev.push(x));
            assert(reconciled_enabled(x) == x.enabled);
            lemma_prefix_determines(next, prev, prev.len());
            assert(next.len() == prev.len() + 1);
            let kn = kept_spec(next, next.len());
            let kp = kept_spec(prev, prev.len());
            assert forall|k: int|
                0 <= k < next.len() implies #[trigger] kn[k] == KeptArtifact {
                index: k as usize,
                enabled: next[k].enabled,
            } by {
                if k < prev.len() {
                    assert(kn[k] == kp[k]);
                }
            }
        } else {
            assert(next =~= prev);
        }
    }
}

} // verus!
