use vstd::prelude::*;

verus! {

/// An operation made through one live wake handle.
#[derive(Clone, Copy, Debug, PartialEq, Eq, Structural)]
pub enum HandleOp {
    /// Make a second handle to the same thread.
    Clone,
    /// Resume the thread, then give up this handle's share.
    Wake,
    /// Resume the thread and keep the handle.
    WakeByRef,
    /// Give up this handle's share without resuming.
    Drop,
}

/// What the ledger has counted since the handle was constructed.
pub struct LedgerView {
    pub clones: nat,
    /// Shares given up, by `Drop` or by `Wake`.
    pub drops: nat,
    /// Resume signals sent, by `Wake` or by `WakeByRef`.
    pub resumes: nat,
    /// Times the shared thread identity was released.
    pub releases: nat,
}

impl LedgerView {
    /// The number of live handles: the constructed one and every clone, less
    /// those given up.
    pub open spec fn live(self) -> int {
        1 + self.clones - self.drops
    }

    /// An operation is made through a live handle, so some handle must be live.
    pub open spec fn admits(self) -> bool {
        self.live() > 0
    }

    /// The ledger after giving up one share: the identity is released when
    /// the last share goes.
    pub open spec fn give_up(self) -> LedgerView {
        LedgerView {
            drops: self.drops + 1,
            releases: if self.live() == 1 {
                self.releases + 1
            } else {
                self.releases
            },
            ..self
        }
    }

    pub open spec fn step(self, op: HandleOp) -> LedgerView {
        match op {
            HandleOp::Clone => LedgerView { clones: self.clones + 1, ..self },
            HandleOp::Wake => LedgerView { resumes: self.resumes + 1, ..self }.give_up(),
            HandleOp::WakeByRef => LedgerView { resumes: self.resumes + 1, ..self },
            HandleOp::Drop => self.give_up(),
        }
    }

    /// The ledger is consistent: never more shares given up than made, and
    /// one release exactly when all of them are gone.
    pub open spec fn consistent(self) -> bool {
        &&& self.drops <= self.clones + 1
        &&& self.releases == if self.live() == 0 {
            1nat
        } else {
            0nat
        }
    }
}

/// The ledger of a freshly constructed handle.
pub open spec fn constructed() -> LedgerView {
    LedgerView { clones: 0, drops: 0, resumes: 0, releases: 0 }
}

/// Applies `ops` in order; `None` if one of them is made when no handle is live.
pub open spec fn apply(v: LedgerView, ops: Seq<HandleOp>) -> Option<LedgerView>
    decreases ops.len(),
{
    if ops.len() == 0 {
        Some(v)
    } else if !v.admits() {
        None
    } else {
        apply(v.step(ops[0]), ops.drop_first())
    }
}

/// How many of `ops` are `op`.
pub open spec fn count_of(ops: Seq<HandleOp>, op: HandleOp) -> nat
    decreases ops.len(),
{
    if ops.len() == 0 {
        0
    } else {
        (if ops[0] == op {
            1nat
        } else {
            0nat
        }) + count_of(ops.drop_first(), op)
    }
}

/// How many of `ops` give up a share.
pub open spec fn shares_given_up(ops: Seq<HandleOp>) -> nat {
    count_of(ops, HandleOp::Drop) + count_of(ops, HandleOp::Wake)
}

proof fn lemma_apply_counts(v: LedgerView, ops: Seq<HandleOp>)
    requires
        v.consistent(),
        apply(v, ops) is Some,
    ensures
        ({
            let w = apply(v, ops)->0;
            &&& w.consistent()
            &&& w.clones == v.clones + count_of(ops, HandleOp::Clone)
            &&& w.drops == v.drops + shares_given_up(ops)
            &&& w.resumes == v.resumes + count_of(ops, HandleOp::Wake) + count_of(
                ops,
                HandleOp::WakeByRef,
            )
        }),
    decreases ops.len(),
{
    if ops.len() > 0 {
        lemma_apply_counts(v.step(ops[0]), ops.drop_first());
    }
}

proof fn lemma_apply_concat(v: LedgerView, a: Seq<HandleOp>, b: Seq<HandleOp>)
    ensures
        apply(v, a + b) == match apply(v, a) {
            Some(w) => apply(w, b),
            None => None,
        },
    decreases a.len(),
{
    if a.len() == 0 {
        assert(a + b =~= b);
    } else {
        assert((a + b).drop_first() =~= a.drop_first() + b);
        if v.admits() {
            lemma_apply_concat(v.step(a[0]), a.drop_first(), b);
        }
    }
}

proof fn lemma_apply_wakes_by_ref(v: LedgerView, ops: Seq<HandleOp>)
    requires
        v.admits(),
        forall|i: int| 0 <= i < ops.len() ==> ops[i] == HandleOp::WakeByRef,
    ensures
        apply(v, ops) == Some(LedgerView { resumes: v.resumes + ops.len(), ..v }),
    decreases ops.len(),
{
    if ops.len() > 0 {
        assert(ops[0] == HandleOp::WakeByRef);
        lemma_apply_wakes_by_ref(v.step(ops[0]), ops.drop_first());
    }
}

proof fn lemma_apply_clones(v: LedgerView, n: nat)
    requires
        v.admits(),
    ensures
        apply(v, Seq::new(n, |i: int| HandleOp::Clone)) == Some(
            LedgerView { clones: v.clones + n, ..v },
        ),
    decreases n,
{
    let ops = Seq::new(n, |i: int| HandleOp::Clone);
    if n > 0 {
        assert(ops.drop_first() =~= Seq::new((n - 1) as nat, |i: int| HandleOp::Clone));
        lemma_apply_clones(v.step(HandleOp::Clone), (n - 1) as nat);
    }
}

/// Starting from one constructed handle, any sequence of clones, wakes and
/// drops made through live handles releases the shared thread identity at
/// most once, and it is released exactly when the shares given up (by a drop
/// or a consuming wake) number the construction plus the clones. Once it is
/// released no handle is left to make a further operation.
pub proof fn law_release_exactly_once(ops: Seq<HandleOp>)
    requires
        apply(constructed(), ops) is Some,
    ensures
        ({
            let v = apply(constructed(), ops)->0;
            &&& v.releases <= 1
            &&& v.clones == count_of(ops, HandleOp::Clone)
            &&& v.drops == shares_given_up(ops)
            &&& (v.releases == 1 <==> shares_given_up(ops) == 1 + count_of(ops, HandleOp::Clone))
            &&& v.releases == 1 ==> forall|op: HandleOp| apply(v, seq![op]) is None
        }),
{
    lemma_apply_counts(constructed(), ops);
}

/// Any number of holders, each with its own clone, may resume the thread by
/// reference in any interleaving: the shares stay as the clones left them and
/// nothing is released.
pub proof fn law_wakes_by_ref_from_many_holders(n: nat, ops: Seq<HandleOp>)
    requires
        forall|i: int| 0 <= i < ops.len() ==> ops[i] == HandleOp::WakeByRef,
    ensures
        apply(constructed(), Seq::new(n, |i: int| HandleOp::Clone) + ops) == Some(
            LedgerView { clones: n, drops: 0, resumes: ops.len(), releases: 0 },
        ),
{
    let clones = Seq::new(n, |i: int| HandleOp::Clone);
    lemma_apply_concat(constructed(), clones, ops);
    lemma_apply_clones(constructed(), n);
    lemma_apply_wakes_by_ref(LedgerView { clones: n, ..constructed() }, ops);
}

/// Resuming `k` times by reference through a live handle sends `k` resumes
/// and changes nothing of the ownership: no share is given up and nothing is
/// released.
pub proof fn law_wake_by_ref_keeps_ownership(v: LedgerView, k: nat)
    requires
        v.consistent(),
        v.admits(),
    ensures
        apply(v, Seq::new(k, |i: int| HandleOp::WakeByRef)) == Some(
            LedgerView { resumes: v.resumes + k, ..v },
        ),
{
    lemma_apply_wakes_by_ref(v, Seq::new(k, |i: int| HandleOp::WakeByRef));
}

/// Ownership accounting for a reference-counted wake handle: how many handles
/// were made and given up, how many resumes were sent, and whether the thread
/// identity that they share has been released.
pub struct WakeLedger {
    clones: u64,
    drops: u64,
    resumes: u64,
    releases: u64,
}

impl View for WakeLedger {
    type V = LedgerView;

    closed spec fn view(&self) -> LedgerView {
        LedgerView {
            clones: self.clones as nat,
            drops: self.drops as nat,
            resumes: self.resumes as nat,
            releases: self.releases as nat,
        }
    }
}

impl WakeLedger {
    /// The ledger is consistent, and the count of live handles fits a `u64`.
    pub open spec fn wf(&self) -> bool {
        &&& self@.consistent()
        &&& self@.clones < u64::MAX
    }

    /// Takes ownership of one thread identity: one live handle.
    pub fn construct() -> (r: WakeLedger)
        ensures
            r@ == constructed(),
            r.wf(),
    {
        WakeLedger { clones: 0, drops: 0, resumes: 0, releases: 0 }
    }

    fn give_up_share(&mut self) -> (released: bool)
        requires
            old(self).wf(),
            old(self)@.admits(),
        ensures
            final(self).wf(),
            final(self)@ == old(self)@.give_up(),
            released == (old(self)@.live() == 1),
    {
        let released = self.drops == self.clones;
        self.drops = self.drops + 1;
        if released {
            self.releases = self.releases + 1;
        }
        released
    }

    /// Makes a second handle to the same thread identity.
    pub fn clone_handle(&mut self)
        requires
            old(self).wf(),
            old(self)@.admits(),
            old(self)@.clones + 1 < u64::MAX,
        ensures
            final(self).wf(),
            final(self)@ == old(self)@.step(HandleOp::Clone),
    {
        self.clones = self.clones + 1;
    }

    /// Resumes the thread and gives up this handle's share; true when that was
    /// the last share and the identity is released.
    pub fn wake(&mut self) -> (released: bool)
        requires
            old(self).wf(),
            old(self)@.admits(),
            old(self)@.resumes < u64::MAX,
        ensures
            final(self).wf(),
            final(self)@ == old(self)@.step(HandleOp::Wake),
            released == (old(self)@.live() == 1),
    {
        self.resumes = self.resumes + 1;
        self.give_up_share()
    }

    /// Resumes the thread and keeps the handle.
    pub fn wake_by_ref(&mut self)
        requires
            old(self).wf(),
            old(self)@.admits(),
            old(self)@.resumes < u64::MAX,
        ensures
            final(self).wf(),
            final(self)@ == old(self)@.step(HandleOp::WakeByRef),
    {
        self.resumes = self.resumes + 1;
    }

    /// Gives up this handle's share; true when that was the last share and the
    /// identity is released.
    pub fn drop_handle(&mut self) -> (released: bool)
        requires
            old(self).wf(),
            old(self)@.admits(),
        ensures
            final(self).wf(),
            final(self)@ == old(self)@.step(HandleOp::Drop),
            released == (old(self)@.live() == 1),
    {
        self.give_up_share()
    }

    /// The number of live handles.
    pub fn live(&self) -> (r: u64)
        requires
            self.wf(),
        ensures
            r == self@.live(),
    {
        if self.drops > self.clones {
            0
        } else {
            self.clones - self.drops + 1
        }
    }

    pub fn resumes(&self) -> (r: u64)
        ensures
            r == self@.resumes,
    {
        self.resumes
    }

    pub fn releases(&self) -> (r: u64)
        ensures
            r == self@.releases,
    {
        self.releases
    }

    /// True once the last share was given up.
    pub fn is_released(&self) -> (r: bool)
        requires
            self.wf(),
        ensures
            r == (self@.releases == 1),
            r == (self@.live() == 0),
    {
        self.releases == 1
    }
}

} // verus!
