use vstd::prelude::*;

use crate::doc::{doc_v_wf, merge_docs, ConfigDoc, DocValueV};
use crate::error::OrchError;
use crate::profiles::{
    chainable, has_item, item_of, items_view, valid_item, ProfileItem, ProfileItemV, ProfileSet,
    ProfileSetV,
};
use crate::sidecar::{Supervisor, SupervisorV};

verus! {

// ---------------------------------------------------------------------------
// The Activation Engine.
//
// Activation resolves the effective configuration from a profile-store
// snapshot and decides what must be sent to the sidecar.  The network call
// itself lives in the surrounding application: it performs the push that a
// plan demands and reports acceptance back to the supervisor through
// `commit_push`, so a failed call leaves the previously-live configuration
// recorded unchanged.
// ---------------------------------------------------------------------------

/// The base document of an activation: the body of the current profile, or
/// the fixed minimal default (the empty mapping) when none is selected.
pub open spec fn spec_resolve_base(s: ProfileSetV) -> Seq<(Seq<char>, DocValueV)> {
    match s.current {
        Some(c) => item_of(s.items, c).body,
        None => Seq::empty(),
    }
}

/// The effective configuration of a plain activation: the base document with
/// the supervisor's accumulated runtime patch folded in.
pub open spec fn spec_effective(
    s: ProfileSetV,
    patch: Seq<(Seq<char>, DocValueV)>,
) -> Seq<(Seq<char>, DocValueV)> {
    merge_docs(spec_resolve_base(s), patch)
}

/// Whether an activation must reach the sidecar: always when forced, and
/// otherwise exactly when the effective configuration differs from what the
/// sidecar last accepted.
pub open spec fn spec_plan_pushes(sup: SupervisorV, s: ProfileSetV, force: bool) -> bool {
    force || sup.last_pushed != Some(spec_effective(s, sup.runtime_patch))
}

/// What an activation asks of the caller: nothing, or one push of the given
/// document to the sidecar's control API.
#[derive(Debug, Clone, PartialEq, Eq)]
pub enum ActivationPlan {
    Skip,
    Push(ConfigDoc),
}

/// Resolve the base document of an activation.
pub fn resolve_base(set: &ProfileSet) -> (r: ConfigDoc)
    requires
        set.wf(),
    ensures
        r@ == spec_resolve_base(set@),
        doc_v_wf(r@),
{
    match &set.current {
        None => ConfigDoc::empty(),
        Some(c) => {
            proof {
                assert(has_item(set@.items, c@));
            }
            match set.get_item(c) {
                Some(item) => {
                    proof {
                        assert(valid_item(item@));
                    }
                    item.body.duplicate()
                },
                None => {
                    proof {
                        assert(false);
                    }
                    ConfigDoc::empty()
                },
            }
        },
    }
}

/// Decide an activation.  The result either demands one push of the
/// effective configuration or says that the sidecar already runs it.
pub fn plan_activate(sup: &Supervisor, set: &ProfileSet, force: bool) -> (r: ActivationPlan)
    requires
        sup.wf(),
        set.wf(),
    ensures
        match r {
            ActivationPlan::Skip => !spec_plan_pushes(sup@, set@, force),
            ActivationPlan::Push(d) => {
                &&& spec_plan_pushes(sup@, set@, force)
                &&& d@ == spec_effective(set@, sup@.runtime_patch)
                &&& doc_v_wf(d@)
            },
        },
{
    let base = resolve_base(set);
    let effective = base.merged(&sup.runtime_patch);
    if !force {
        match &sup.last_pushed {
            Some(live) => {
                if live.same_content(&effective) {
                    return ActivationPlan::Skip;
                }
            },
            None => {},
        }
    }
    ActivationPlan::Push(effective)
}

// ---------------------------------------------------------------------------
// Enhanced activation.
//
// Enhanced activation always evaluates the chain: merge members are folded
// into the running document here, while a script member's transformation is
// executed by the surrounding application, which hands the outcome back.
// Evaluation is in stored order and the first failure stops it before the
// sidecar is contacted.
// ---------------------------------------------------------------------------

/// What the application reports of one script transformation.
#[derive(Debug, Clone, PartialEq, Eq)]
pub enum ScriptOutput {
    /// The script returned this mapping.
    Doc(ConfigDoc),
    /// The script returned something other than a mapping.
    NotMapping,
    /// The script itself failed, with its message.
    Failed(String),
}

/// What enhanced activation asks of the caller next.
#[derive(Debug, Clone, PartialEq, Eq)]
pub enum EnhanceStep {
    /// Run the script of the chain member with this id against the current
    /// document and report the outcome through `supply_script`.
    NeedScript(String),
    /// Every chain member is evaluated; `finish` yields the document.
    Finished,
}

/// One in-progress enhanced activation over a profile-store snapshot.
#[derive(Debug, Clone, PartialEq, Eq)]
pub struct EnhanceSession {
    /// The running document.
    pub doc: ConfigDoc,
    /// The chain members of the snapshot, in stored order.
    pub members: Vec<ProfileItem>,
    /// How many chain members are already applied.
    pub pos: usize,
    /// Whether a member failed; a failed session yields no document.
    pub failed: bool,
}

pub open spec fn session_wf(s: EnhanceSession) -> bool {
    &&& doc_v_wf(s.doc@)
    &&& s.pos <= s.members@.len()
    &&& forall|i: int|
        0 <= i < s.members@.len() ==> chainable((#[trigger] items_view(s.members@)[i]).kind)
            && valid_item(items_view(s.members@)[i])
}

/// Apply consecutive merge members to the document, stopping at the first
/// script member or the end of the chain.
pub open spec fn run_merges(
    doc: Seq<(Seq<char>, DocValueV)>,
    members: Seq<ProfileItemV>,
    pos: int,
) -> (Seq<(Seq<char>, DocValueV)>, int)
    decreases members.len() - pos,
{
    if pos < 0 || pos >= members.len() {
        (doc, pos)
    } else if members[pos].kind is Merge {
        run_merges(merge_docs(doc, members[pos].body), members, pos + 1)
    } else {
        (doc, pos)
    }
}

/// The session rests at a script member awaiting its outcome.
pub open spec fn expecting_script(s: EnhanceSession) -> bool {
    &&& !s.failed
    &&& s.pos < s.members@.len()
    &&& items_view(s.members@)[s.pos as int].kind is Script
}

/// A script outcome that cannot be applied: a failure, a non-mapping, or a
/// malformed mapping.
pub open spec fn script_failed(out: ScriptOutput) -> bool {
    !(out is Doc && doc_v_wf(out->Doc_0@))
}

/// How a failed `supply_script` call leaves the session: the document and
/// position kept, the session marked failed, and a chain error naming the
/// member that was being evaluated.
pub open spec fn supply_failure(pre: EnhanceSession, post: EnhanceSession, e: OrchError) -> bool {
    &&& post.doc == pre.doc
    &&& post.pos == pre.pos
    &&& post.members == pre.members
    &&& post.failed
    &&& e is Chain
    &&& e->member@ == items_view(pre.members@)[pre.pos as int].id
}

impl EnhanceSession {
    /// Begin an enhanced activation over a snapshot of the store: the base
    /// document plus the chain members, none applied yet.
    pub fn start(set: &ProfileSet) -> (r: EnhanceSession)
        requires
            set.wf(),
        ensures
            session_wf(r),
            r.pos == 0,
            !r.failed,
            r.doc@ == spec_resolve_base(set@),
            items_view(r.members@) == set@.chain.map_values(
                |id: Seq<char>| item_of(set@.items, id),
            ),
    {
        let doc = resolve_base(set);
        let mut members: Vec<ProfileItem> = Vec::new();
        let mut i: usize = 0;
        while i < set.chain.len()
            invariant
                i <= set.chain.len(),
                set.wf(),
                members@.len() == i,
                forall|j: int|
                    0 <= j < i ==> (#[trigger] members@[j])@ == item_of(set@.items, set@.chain[j]),
            decreases set.chain.len() - i,
        {
            proof {
                assert(set@.chain[i as int] == set.chain@[i as int]@);
                assert(has_item(set@.items, set@.chain[i as int]));
            }
            match set.get_item(&set.chain[i]) {
                Some(item) => {
                    members.push(item.duplicate());
                },
                None => {
                    proof {
                        assert(false);
                    }
                },
            }
            i = i + 1;
        }
        proof {
            assert forall|j: int| 0 <= j < members@.len() implies #[trigger] items_view(members@)[j]
                == set@.chain.map_values(|id: Seq<char>| item_of(set@.items, id))[j] by {
                assert(items_view(members@)[j] == members@[j]@);
            }
            assert(items_view(members@) =~= set@.chain.map_values(
                |id: Seq<char>| item_of(set@.items, id),
            ));
            assert forall|j: int| 0 <= j < members@.len() implies chainable(
                (#[trigger] items_view(members@)[j]).kind,
            ) && valid_item(items_view(members@)[j]) by {
                assert(has_item(set@.items, set@.chain[j]));
                assert(chainable(item_of(set@.items, set@.chain[j]).kind));
                let w = item_at_witness(set@.items, set@.chain[j]);
                assert(valid_item(item_of(set@.items, set@.chain[j])));
            }
        }
        EnhanceSession { doc, members, pos: 0, failed: false }
    }

    /// Fold consecutive merge members into the document; stop at the first
    /// script member, whose id is handed back, or at the end of the chain.
    pub fn advance(&mut self) -> (r: EnhanceStep)
        requires
            session_wf(*old(self)),
            !old(self).failed,
        ensures
            session_wf(*final(self)),
            !final(self).failed,
            final(self).members == old(self).members,
            final(self).doc@ == run_merges(
                old(self).doc@,
                items_view(old(self).members@),
                old(self).pos as int,
            ).0,
            final(self).pos as int == run_merges(
                old(self).doc@,
                items_view(old(self).members@),
                old(self).pos as int,
            ).1,
            match r {
                EnhanceStep::Finished => final(self).pos == final(self).members@.len(),
                EnhanceStep::NeedScript(id) => expecting_script(*final(self)) && id@ == items_view(
                    final(self).members@,
                )[final(self).pos as int].id,
            },
    {
        while self.pos < self.members.len() && self.members[self.pos].kind
            == crate::profiles::ProfileKind::Merge
            invariant
                session_wf(*self),
                !self.failed,
                self.members == old(self).members,
                run_merges(old(self).doc@, items_view(self.members@), old(self).pos as int)
                    == run_merges(self.doc@, items_view(self.members@), self.pos as int),
            decreases self.members@.len() - self.pos,
        {
            let ghost mv = items_view(self.members@);
            proof {
                assert(mv[self.pos as int] == self.members@[self.pos as int]@);
                assert(valid_item(mv[self.pos as int]));
            }
            let merged = self.doc.merged(&self.members[self.pos].body);
            self.doc = merged;
            self.pos = self.pos + 1;
        }
        proof {
            let mv = items_view(self.members@);
            if self.pos < self.members.len() {
                assert(mv[self.pos as int] == self.members@[self.pos as int]@);
                assert(chainable(mv[self.pos as int].kind));
            }
        }
        if self.pos < self.members.len() {
            EnhanceStep::NeedScript(self.members[self.pos].id.clone())
        } else {
            EnhanceStep::Finished
        }
    }

    /// Apply the outcome of the pending script member.  A well-formed
    /// mapping becomes the running document; anything else fails the whole
    /// enhanced activation with a chain error naming the member, and the
    /// session yields no document.
    pub fn supply_script(&mut self, out: ScriptOutput) -> (r: Result<(), OrchError>)
        requires
            session_wf(*old(self)),
            expecting_script(*old(self)),
        ensures
            session_wf(*final(self)),
            final(self).members == old(self).members,
            match r {
                Ok(()) => {
                    &&& !script_failed(out)
                    &&& final(self).doc@ == out->Doc_0@
                    &&& final(self).pos == old(self).pos + 1
                    &&& !final(self).failed
                },
                Err(e) => {
                    &&& script_failed(out)
                    &&& supply_failure(*old(self), *final(self), e)
                    &&& (out matches ScriptOutput::Failed(m) ==> e->reason@ == m@)
                },
            },
    {
        let ghost pending = items_view(self.members@)[self.pos as int].id;
        proof {
            assert(self.members@[self.pos as int]@ == items_view(self.members@)[self.pos as int]);
        }
        match out {
            ScriptOutput::Doc(d) => {
                if d.is_wf() {
                    let len = self.members.len();
                    self.doc = d;
                    self.pos = self.pos + 1;
                    Ok(())
                } else {
                    self.failed = true;
                    Err(OrchError::Chain {
                        member: self.members[self.pos].id.clone(),
                        reason: "the script returned a malformed document".to_owned(),
                    })
                }
            },
            ScriptOutput::NotMapping => {
                self.failed = true;
                Err(OrchError::Chain {
                    member: self.members[self.pos].id.clone(),
                    reason: "the script did not return a mapping".to_owned(),
                })
            },
            ScriptOutput::Failed(m) => {
                self.failed = true;
                Err(OrchError::Chain { member: self.members[self.pos].id.clone(), reason: m })
            },
        }
    }

    /// The fully evaluated document of a session whose chain ran to the end.
    pub fn finish(self) -> (r: ConfigDoc)
        requires
            session_wf(self),
            !self.failed,
            self.pos == self.members@.len(),
        ensures
            r@ == self.doc@,
            doc_v_wf(r@),
    {
        self.doc
    }
}

/// A helper naming the witness index behind `item_of`.
pub proof fn item_at_witness(items: Seq<ProfileItemV>, id: Seq<char>) -> (w: int)
    requires
        has_item(items, id),
    ensures
        0 <= w < items.len(),
        items[w] == item_of(items, id),
{
    let w = crate::profiles::item_at(items, id);
    assert(0 <= w < items.len() && items[w].id == id);
    w
}

// ---------------------------------------------------------------------------
// Laws of activation.
// ---------------------------------------------------------------------------

/// Two activations in a row with no intervening mutation issue exactly one
/// push: after the pushed document is committed, an immediate second
/// activation without force is a no-op, while a forced activation always
/// pushes.
pub proof fn lemma_second_activation_skips(sup: SupervisorV, s: ProfileSetV)
    ensures
        !spec_plan_pushes(
            SupervisorV { last_pushed: Some(spec_effective(s, sup.runtime_patch)), ..sup },
            s,
            false,
        ),
        spec_plan_pushes(sup, s, true),
{
}

/// A chain member that fails its transformation aborts the enhanced
/// activation with a chain error naming that member and leaves the running
/// document untouched.  The session then never yields a document, and since
/// `commit_push` is the only operation that changes the supervisor's record
/// of the live configuration, the previously-live configuration stays in
/// effect.
pub proof fn lemma_chain_failure_aborts(pre: EnhanceSession, post: EnhanceSession, e: OrchError)
    requires
        supply_failure(pre, post, e),
    ensures
        e is Chain,
        e->member@ == items_view(pre.members@)[pre.pos as int].id,
        post.failed,
        post.doc@ == pre.doc@,
{
}

} // verus!
