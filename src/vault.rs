//! The credential vault: per-account blobs, the live slot the monitored
//! service reads, and the activation protocol that swaps the slot.
//!
//! Activation writes the target blob to a staging copy and then promotes
//! the staging copy over the live slot in one atomic replace. The protocol
//! is a list of `SlotOp`s; `SlotState` executes it in memory (and, with
//! `run_with_crash`, interrupted part way), and a file-backed executor runs
//! the same list against the filesystem.

use vstd::prelude::*;
use crate::fingerprint::{fingerprint, hex_bytes, hex_lower, sha256_of};
use crate::registry::{
    account_index, conflicts_at, digest_of, has_conflict, is_live, is_registered, marked_live, new_account, registry_wf,
    with_account, without_account, Config, RegistryView, VaultError,
};

verus! {

/// One step of the activation protocol.
pub enum SlotOp {
    /// Copy the live slot's content to the backup (best effort).
    Backup,
    /// Write a blob to the staging copy.
    WriteStaging(Vec<u8>),
    /// Atomically replace the live slot with the staging copy.
    Promote,
}

/// The live slot, its backup and the staging copy.
pub struct SlotState {
    pub live: Option<Vec<u8>>,
    pub backup: Option<Vec<u8>>,
    pub staging: Option<Vec<u8>>,
}

/// The abstract view of a protocol step.
pub enum OpView {
    Backup,
    WriteStaging(Seq<u8>),
    Promote,
}

/// The abstract view of the slot state.
pub struct SlotView {
    pub live: Option<Seq<u8>>,
    pub backup: Option<Seq<u8>>,
    pub staging: Option<Seq<u8>>,
}

/// The bytes of an optional blob.
pub open spec fn opt_bytes(b: Option<Vec<u8>>) -> Option<Seq<u8>> {
    match b {
        Some(v) => Some(v@),
        None => None,
    }
}

impl View for SlotOp {
    type V = OpView;

    open spec fn view(&self) -> OpView {
        match self {
            SlotOp::Backup => OpView::Backup,
            SlotOp::WriteStaging(b) => OpView::WriteStaging(b@),
            SlotOp::Promote => OpView::Promote,
        }
    }
}

impl View for SlotState {
    type V = SlotView;

    open spec fn view(&self) -> SlotView {
        SlotView { live: opt_bytes(self.live), backup: opt_bytes(self.backup), staging: opt_bytes(self.staging) }
    }
}

/// The effect of one completed step.
pub open spec fn op_effect(s: SlotView, op: OpView) -> SlotView {
    match op {
        OpView::Backup => match s.live {
            Some(l) => SlotView { backup: Some(l), ..s },
            None => s,
        },
        OpView::WriteStaging(b) => SlotView { staging: Some(b), ..s },
        OpView::Promote => match s.staging {
            Some(b) => SlotView { live: Some(b), staging: None, ..s },
            None => s,
        },
    }
}

/// The first `kept` bytes of `b` (all of it when shorter).
pub open spec fn prefix(b: Seq<u8>, kept: nat) -> Seq<u8> {
    if kept < b.len() {
        b.take(kept as int)
    } else {
        b
    }
}

/// The effect of a step interrupted part way: a copy or write leaves only
/// the first `kept` bytes at its destination; the atomic replace has either
/// happened or not, and an interrupted one has not.
pub open spec fn torn_effect(s: SlotView, op: OpView, kept: nat) -> SlotView {
    match op {
        OpView::Backup => match s.live {
            Some(l) => SlotView { backup: Some(prefix(l, kept)), ..s },
            None => s,
        },
        OpView::WriteStaging(b) => SlotView { staging: Some(prefix(b, kept)), ..s },
        OpView::Promote => s,
    }
}

/// The state after running every step of `ops` in order.
pub open spec fn run_ops(s: SlotView, ops: Seq<OpView>) -> SlotView
    decreases ops.len(),
{
    if ops.len() == 0 {
        s
    } else {
        op_effect(run_ops(s, ops.drop_last()), ops.last())
    }
}

/// The state after the first `done` steps completed and the next one, if
/// any, was interrupted having kept `kept` bytes.
pub open spec fn crashed_run(s: SlotView, ops: Seq<OpView>, done: nat, kept: nat) -> SlotView {
    if done < ops.len() {
        torn_effect(run_ops(s, ops.take(done as int)), ops[done as int], kept)
    } else {
        run_ops(s, ops)
    }
}

/// The activation protocol for a target blob.
pub open spec fn activation_ops(blob: Seq<u8>) -> Seq<OpView> {
    seq![OpView::Backup, OpView::WriteStaging(blob), OpView::Promote]
}

/// Interrupting activation anywhere leaves the live slot holding either its
/// previous content or the complete new blob, never anything else.
pub proof fn lemma_activation_crash_safe(s: SlotView, blob: Seq<u8>, done: nat, kept: nat)
    ensures
        crashed_run(s, activation_ops(blob), done, kept).live == s.live
            || crashed_run(s, activation_ops(blob), done, kept).live == Some(blob),
{
    lemma_activation_steps(s, blob);
}

proof fn lemma_activation_steps(s: SlotView, blob: Seq<u8>)
    ensures
        run_ops(s, activation_ops(blob).take(0)) == s,
        run_ops(s, activation_ops(blob).take(1)) == op_effect(s, OpView::Backup),
        run_ops(s, activation_ops(blob).take(2)) == op_effect(op_effect(s, OpView::Backup), OpView::WriteStaging(blob)),
        run_ops(s, activation_ops(blob)) == op_effect(op_effect(op_effect(s, OpView::Backup), OpView::WriteStaging(blob)), OpView::Promote),
{
    let ops = activation_ops(blob);
    assert(ops.take(0) =~= Seq::<OpView>::empty());
    assert(ops.take(1).drop_last() =~= ops.take(0));
    assert(ops.take(2).drop_last() =~= ops.take(1));
    assert(ops.drop_last() =~= ops.take(2));
    assert(ops.take(1).last() == ops[0]);
    assert(ops.take(2).last() == ops[1]);
    assert(run_ops(s, ops.take(0)) == s);
    assert(run_ops(s, ops.take(1)) == op_effect(run_ops(s, ops.take(0)), ops[0]));
    assert(run_ops(s, ops.take(2)) == op_effect(run_ops(s, ops.take(1)), ops[1]));
    assert(run_ops(s, ops) == op_effect(run_ops(s, ops.take(2)), ops[2]));
}

/// A completed activation leaves the new blob live and the previous live
/// content, if any, in the backup.
pub proof fn lemma_activation_complete(s: SlotView, blob: Seq<u8>)
    ensures
        run_ops(s, activation_ops(blob)).live == Some(blob),
        s.live is Some ==> run_ops(s, activation_ops(blob)).backup == s.live,
        s.live is None ==> run_ops(s, activation_ops(blob)).backup == s.backup,
{
    lemma_activation_steps(s, blob);
}

/// Marking a registered account live keeps every recorded fingerprint and
/// every account's position, so the blobs still line up with the accounts.
pub proof fn lemma_marked_live_keeps_blobs(reg: RegistryView, blobs: Seq<Vec<u8>>, name: Seq<char>, now: Seq<char>)
    requires
        is_registered(reg, name),
        blobs.len() == reg.accounts.len(),
        forall|k: int| 0 <= k < blobs.len() ==> digest_of(#[trigger] reg.accounts[k]) == Some(sha256_of(blobs[k]@)),
    ensures
        marked_live(reg, name, now).accounts.len() == reg.accounts.len(),
        forall|k: int| 0 <= k < blobs.len() ==>
            digest_of(#[trigger] marked_live(reg, name, now).accounts[k]) == Some(sha256_of(blobs[k]@)),
        account_index(marked_live(reg, name, now).accounts, name) == account_index(reg.accounts, name),
{
    let w = marked_live(reg, name, now);
    assert forall|k: int| 0 <= k < blobs.len() implies
        digest_of(#[trigger] w.accounts[k]) == Some(sha256_of(blobs[k]@)) by {
        assert(digest_of(w.accounts[k]) == digest_of(reg.accounts[k]));
    }
    let i = account_index(reg.accounts, name) as int;
    crate::registry::lemma_account_index_bound(reg.accounts, name);
    crate::registry::lemma_index_after_update(reg.accounts, name,
        crate::registry::AccountView { last_used: Some(now), ..reg.accounts[i] });
}

/// The activation protocol for `blob`.
pub fn activation_plan(blob: &Vec<u8>) -> (r: Vec<SlotOp>)
    ensures
        r@.map_values(|o: SlotOp| o@) == activation_ops(blob@),
{
    let r = vec![SlotOp::Backup, SlotOp::WriteStaging(blob.clone()), SlotOp::Promote];
    assert(r@.map_values(|o: SlotOp| o@) =~= activation_ops(blob@));
    r
}

fn copy_bytes(b: &Vec<u8>) -> (r: Vec<u8>)
    ensures
        r@ == b@,
{
    let mut r: Vec<u8> = Vec::new();
    let mut i: usize = 0;
    while i < b.len()
        invariant
            i <= b@.len(),
            r@ == b@.take(i as int),
        decreases b.len() - i,
    {
        r.push(b[i]);
        i = i + 1;
        assert(r@ =~= b@.take(i as int));
    }
    assert(b@.take(b@.len() as int) =~= b@);
    r
}

fn prefix_bytes(b: &Vec<u8>, kept: usize) -> (r: Vec<u8>)
    ensures
        r@ == prefix(b@, kept as nat),
{
    let n = if kept < b.len() { kept } else { b.len() };
    let mut r: Vec<u8> = Vec::new();
    let mut i: usize = 0;
    while i < n
        invariant
            n <= b@.len(),
            i <= n,
            r@ == b@.take(i as int),
        decreases n - i,
    {
        r.push(b[i]);
        i = i + 1;
        assert(r@ =~= b@.take(i as int));
    }
    assert(b@.take(b@.len() as int) =~= b@);
    r
}

impl SlotState {
    /// A slot state with the given live content and nothing else.
    pub fn new(live: Option<Vec<u8>>) -> (r: SlotState)
        ensures
            r@.live == opt_bytes(live),
            r@.backup is None,
            r@.staging is None,
    {
        SlotState { live, backup: None, staging: None }
    }

    /// Performs one step of the protocol.
    pub fn apply(&mut self, op: &SlotOp)
        ensures
            final(self)@ == op_effect(old(self)@, op@),
    {
        match op {
            SlotOp::Backup => {
                if let Some(l) = &self.live {
                    self.backup = Some(copy_bytes(l));
                }
            }
            SlotOp::WriteStaging(b) => {
                self.staging = Some(copy_bytes(b));
            }
            SlotOp::Promote => {
                let staged = self.staging.take();
                if let Some(b) = staged {
                    self.live = Some(b);
                }
            }
        }
    }

    /// Performs one step of the protocol, interrupted after `kept` bytes.
    pub fn apply_torn(&mut self, op: &SlotOp, kept: usize)
        ensures
            final(self)@ == torn_effect(old(self)@, op@, kept as nat),
    {
        match op {
            SlotOp::Backup => {
                if let Some(l) = &self.live {
                    self.backup = Some(prefix_bytes(l, kept));
                }
            }
            SlotOp::WriteStaging(b) => {
                self.staging = Some(prefix_bytes(b, kept));
            }
            SlotOp::Promote => {}
        }
    }

    /// Runs the first `done` steps of `ops`, then interrupts the next one,
    /// if any, after `kept` bytes: a crash injected into the protocol.
    pub fn run_with_crash(&mut self, ops: &Vec<SlotOp>, done: usize, kept: usize)
        ensures
            final(self)@ == crashed_run(old(self)@, ops@.map_values(|o: SlotOp| o@), done as nat, kept as nat),
    {
        let ghost ov = ops@.map_values(|o: SlotOp| o@);
        let ghost start = self@;
        let mut i: usize = 0;
        while i < ops.len() && i < done
            invariant
                i <= ops@.len(),
                i <= done,
                ov == ops@.map_values(|o: SlotOp| o@),
                self@ == run_ops(start, ov.take(i as int)),
            decreases ops.len() - i,
        {
            self.apply(&ops[i]);
            proof {
                assert(ov.take(i + 1).drop_last() =~= ov.take(i as int));
            }
            i = i + 1;
        }
        if i < ops.len() {
            assert(ov[i as int] == ops@[i as int]@);
            self.apply_torn(&ops[i], kept);
        } else {
            assert(ov.take(i as int) =~= ov);
        }
    }

    /// Runs every step of `ops` in order.
    pub fn run(&mut self, ops: &Vec<SlotOp>)
        ensures
            final(self)@ == run_ops(old(self)@, ops@.map_values(|o: SlotOp| o@)),
    {
        let ghost ov = ops@.map_values(|o: SlotOp| o@);
        let ghost start = self@;
        let mut i: usize = 0;
        while i < ops.len()
            invariant
                i <= ops@.len(),
                ov == ops@.map_values(|o: SlotOp| o@),
                self@ == run_ops(start, ov.take(i as int)),
            decreases ops.len() - i,
        {
            self.apply(&ops[i]);
            proof {
                assert(ov.take(i + 1).drop_last() =~= ov.take(i as int));
            }
            i = i + 1;
        }
        assert(ov.take(i as int) =~= ov);
    }
}

/// Decides an activation of `name`, whose stored blob is `blob`, given
/// whether the monitored process appears to be running. A running process
/// refuses the activation unless `allow_if_running`; otherwise an unknown
/// account or a missing blob refuses it; otherwise the protocol to run.
pub fn plan_activation(registry: &Config, name: &str, blob: Option<&Vec<u8>>, running: bool, allow_if_running: bool)
    -> (r: Result<Vec<SlotOp>, VaultError>)
    ensures
        running && !allow_if_running ==> r == Err::<Vec<SlotOp>, VaultError>(VaultError::RunningConflict),
        !(running && !allow_if_running) && (!is_registered(registry@, name@) || blob is None) ==>
            (r matches Err(VaultError::CredentialMissing(n)) && n@ == name@),
        !(running && !allow_if_running) && is_registered(registry@, name@) && blob is Some ==>
            (r matches Ok(ops) && ops@.map_values(|o: SlotOp| o@) == activation_ops(blob.unwrap()@)),
{
    if running && !allow_if_running {
        return Err(VaultError::RunningConflict);
    }
    if registry.find(name).is_none() {
        return Err(VaultError::CredentialMissing(String::from_str(name)));
    }
    match blob {
        Some(b) => Ok(activation_plan(b)),
        None => Err(VaultError::CredentialMissing(String::from_str(name))),
    }
}

/// The vault: the registry, one credential blob per registered account (in
/// the registry's order), and the live slot.
pub struct CredentialVault {
    pub registry: Config,
    pub blobs: Vec<Vec<u8>>,
    pub slot: SlotState,
}

/// The bytes of each blob.
pub open spec fn blob_views(blobs: Seq<Vec<u8>>) -> Seq<Seq<u8>> {
    blobs.map_values(|b: Vec<u8>| b@)
}

impl CredentialVault {
    /// The vault's invariant: a well-formed registry, and for each account
    /// a blob whose fingerprint the registry records.
    pub open spec fn wf(&self) -> bool {
        &&& registry_wf(self.registry@)
        &&& self.blobs@.len() == self.registry@.accounts.len()
        &&& forall|i: int| 0 <= i < self.blobs@.len() ==>
            digest_of(#[trigger] self.registry@.accounts[i]) == Some(sha256_of(self.blobs@[i]@))
    }

    /// The live slot holds the blob of the live account, if one is live.
    pub open spec fn live_matches(&self) -> bool {
        self.registry@.active matches Some(n) ==> self.slot@.live == Some(self.blob_of(n))
    }

    /// The blob of the account named `name`.
    pub open spec fn blob_of(&self, name: Seq<char>) -> Seq<u8> {
        self.blobs@[account_index(self.registry@.accounts, name) as int]@
    }

    /// An empty vault around a live slot with the given content.
    pub fn new(live: Option<Vec<u8>>) -> (r: CredentialVault)
        ensures
            r.wf(),
            r.registry@.accounts.len() == 0,
            r.registry@.active is None,
            r.slot@.live == opt_bytes(live),
    {
        CredentialVault { registry: Config::new(), blobs: Vec::new(), slot: SlotState::new(live) }
    }

    /// Registers `name` with the credential blob read from the source, added
    /// at `now`. Fails when there is no source blob, or when its fingerprint
    /// already belongs to another account; a failure changes nothing.
    #[verifier::rlimit(40)]
    pub fn add(&mut self, name: &str, source: Option<Vec<u8>>, now: &str) -> (r: Result<(), VaultError>)
        requires
            old(self).wf(),
        ensures
            final(self).wf(),
            source is None ==> (r matches Err(VaultError::CredentialMissing(n)) && n@ == name@),
            source matches Some(b) ==> (r is Ok <==> !has_conflict(old(self).registry@, name@, sha256_of(b@))),
            source matches Some(b) ==> (r is Ok ==> {
                let i = account_index(old(self).registry@.accounts, name@);
                &&& final(self).registry@ == with_account(old(self).registry@, new_account(name@, sha256_of(b@), now@))
                &&& blob_views(final(self).blobs@) == if i < old(self).blobs@.len() {
                    blob_views(old(self).blobs@).update(i as int, b@)
                } else {
                    blob_views(old(self).blobs@).push(b@)
                }
            }),
            source matches Some(b) ==> (r matches Err(e) ==> (e matches VaultError::DuplicateCredential(other)
                && exists|j: int| conflicts_at(old(self).registry@, name@, sha256_of(b@), j)
                    && old(self).registry@.accounts[j].name == other@)),
            r is Err ==> final(self).registry@ == old(self).registry@ && final(self).blobs@ == old(self).blobs@,
            final(self).slot@ == old(self).slot@,
            old(self).live_matches() && !is_live(old(self).registry@, name@) ==> final(self).live_matches(),
    {
        let blob = match source {
            Some(b) => b,
            None => {
                return Err(VaultError::CredentialMissing(String::from_str(name)));
            }
        };
        let digest = fingerprint(&blob);
        let ghost before = self.registry@;
        let ghost old_blobs = self.blobs@;
        let slot = self.registry.find(name);
        match self.registry.add_account(name, &digest, now) {
            Err(e) => {
                return Err(e);
            }
            Ok(()) => {}
        }
        proof {
            crate::fingerprint::lemma_hex_round_trip(digest@);
        }
        let ghost bv = blob@;
        match slot {
            Some(i) => {
                self.blobs.set(i, blob);
                assert(blob_views(self.blobs@) =~= blob_views(old_blobs).update(i as int, bv));
            }
            None => {
                self.blobs.push(blob);
                assert(blob_views(self.blobs@) =~= blob_views(old_blobs).push(bv));
            }
        }
        proof {
            if let Some(n) = before.active {
                if old(self).live_matches() && n != name@ {
                    crate::registry::lemma_account_index_bound(before.accounts, name@);
                    crate::registry::lemma_account_index_bound(before.accounts, n);
                    let e = new_account(name@, digest@, now@);
                    let k = account_index(before.accounts, n) as int;
                    match slot {
                        Some(i) => {
                            crate::registry::lemma_index_same_name_update(before.accounts, i as int, e, n);
                            assert(k != i as int);
                        }
                        None => {
                            crate::registry::lemma_index_after_push(before.accounts, e, n);
                        }
                    }
                    assert(self.blobs@[k] == old_blobs[k]);
                }
            }
            assert forall|k: int| 0 <= k < self.blobs@.len() implies
                digest_of(#[trigger] self.registry@.accounts[k]) == Some(sha256_of(self.blobs@[k]@)) by {
                if slot is Some && k == slot.unwrap() as int {
                } else if slot is None && k == old_blobs.len() {
                } else {
                    assert(self.blobs@[k] == old_blobs[k]);
                    assert(self.registry@.accounts[k] == before.accounts[k]);
                }
            }
        }
        Ok(())
    }

    /// Activates `name`, given whether the monitored process appears to be
    /// running: refused with `RunningConflict` when it runs and
    /// `allow_if_running` is false, refused with `CredentialMissing` for an
    /// unknown account; otherwise the previous live content is backed up,
    /// the account's blob replaces the live slot, and only then does the
    /// registry mark it live, stamped at `now`. A refusal changes nothing.
    #[verifier::rlimit(40)]
    pub fn activate(&mut self, name: &str, allow_if_running: bool, running: bool, now: &str) -> (r: Result<(), VaultError>)
        requires
            old(self).wf(),
        ensures
            final(self).wf(),
            running && !allow_if_running ==> r == Err::<(), VaultError>(VaultError::RunningConflict),
            !(running && !allow_if_running) ==> (r is Ok <==> is_registered(old(self).registry@, name@)),
            !(running && !allow_if_running) && r is Err ==> (r matches Err(VaultError::CredentialMissing(n)) && n@ == name@),
            r is Err ==> final(self).registry@ == old(self).registry@ && final(self).slot@ == old(self).slot@,
            r is Ok ==> final(self).registry@ == marked_live(old(self).registry@, name@, now@)
                && final(self).slot@ == run_ops(old(self).slot@, activation_ops(old(self).blob_of(name@)))
                && final(self).slot@.live == Some(final(self).blob_of(name@)),
            r is Ok ==> final(self).live_matches(),
            old(self).live_matches() ==> final(self).live_matches(),
            final(self).blobs@ == old(self).blobs@,
    {
        let found = self.registry.find(name);
        let blob = match found {
            Some(i) => Some(&self.blobs[i]),
            None => None,
        };
        let ops = match plan_activation(&self.registry, name, blob, running, allow_if_running) {
            Ok(ops) => ops,
            Err(e) => {
                return Err(e);
            }
        };
        let ghost target = old(self).blob_of(name@);
        proof {
            lemma_activation_complete(self.slot@, target);
        }
        self.slot.run(&ops);
        let ghost before = self.registry@;
        let marked = self.registry.mark_live(name, now);
        proof {
            lemma_marked_live_keeps_blobs(before, self.blobs@, name@, now@);
        }
        Ok(())
    }

    /// Forgets `name` and its blob; when it was live, no account is live
    /// afterwards, and the live slot keeps its content either way. Fails,
    /// changing nothing, for an unknown account.
    pub fn remove(&mut self, name: &str) -> (r: Result<(), VaultError>)
        requires
            old(self).wf(),
        ensures
            final(self).wf(),
            r is Ok <==> is_registered(old(self).registry@, name@),
            r is Ok ==> final(self).registry@ == without_account(old(self).registry@, name@)
                && final(self).blobs@ == old(self).blobs@.remove(account_index(old(self).registry@.accounts, name@) as int),
            r is Err ==> final(self).registry@ == old(self).registry@ && final(self).blobs@ == old(self).blobs@,
            final(self).slot@ == old(self).slot@,
            old(self).live_matches() ==> final(self).live_matches(),
    {
        let found = self.registry.find(name);
        let ghost before = self.registry@;
        match self.registry.remove_account(name) {
            Err(e) => Err(e),
            Ok(()) => {
                let i = match found {
                    Some(i) => i,
                    None => {
                        return Ok(());
                    }
                };
                let ghost old_blobs = self.blobs@;
                self.blobs.remove(i);
                proof {
                    if let Some(n) = self.registry@.active {
                        if old(self).live_matches() {
                            assert(before.active == Some(n) && n != name@);
                            crate::registry::lemma_account_index_bound(before.accounts, name@);
                            crate::registry::lemma_account_index_bound(before.accounts, n);
                            crate::registry::lemma_index_after_remove(before.accounts, i as int, n);
                            let k = account_index(before.accounts, n) as int;
                            let k2 = if k < i { k } else { k - 1 };
                            assert(k != i as int);
                            assert(self.blobs@ == old_blobs.remove(i as int));
                            assert(self.blobs@[k2] == old_blobs[k]);
                        }
                    }
                    assert forall|k: int| 0 <= k < self.blobs@.len() implies
                        digest_of(#[trigger] self.registry@.accounts[k]) == Some(sha256_of(self.blobs@[k]@)) by {
                        let src = if k < i { k } else { k + 1 };
                        assert(self.blobs@[k] == old_blobs[src]);
                        assert(self.registry@.accounts[k] == before.accounts[src]);
                    }
                }
                Ok(())
            }
        }
    }
}

} // verus!
