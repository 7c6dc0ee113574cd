//! Shared-ownership bookkeeping for the engine's resources.
//!
//! Every engine resource (atlas, skeleton definition, mixing table, live
//! skeleton, live animation state) is registered in a [`HandleStore`],
//! which tracks one reference count per resource. A [`SharedHandle`] is a
//! claim on one reference; it cannot be copied, and releasing it gives the
//! reference back. A resource may also *retain* other resources (its
//! dependencies): those references are dropped automatically when the
//! retaining resource is disposed, so disposal cascades in dependency
//! order. The store records every disposal, exactly once per resource, in
//! a log that a host can use as a tracing hook.
//!
//! Counting is synchronized by exclusivity: every counting operation
//! takes the store by `&mut`, so a host that shares resources across
//! threads serializes the counting itself, and disposal runs on
//! whichever thread releases the last reference.

use vstd::prelude::*;

verus! {

/// Which kind of engine resource a slot of the store was allocated for.
#[derive(Debug, Copy, Clone, PartialEq, Eq, Structural)]
pub enum ResourceKind {
    Atlas,
    SkeletonData,
    AnimationStateData,
    Skeleton,
    AnimationState,
}

/// How often `q` occurs in `s`.
pub open spec fn occ(s: Seq<usize>, q: int) -> nat
    decreases s.len(),
{
    if s.len() == 0 {
        0
    } else {
        occ(s.drop_last(), q) + (if s.last() == q {
            1nat
        } else {
            0nat
        })
    }
}

proof fn lemma_occ_push(s: Seq<usize>, x: usize, q: int)
    ensures
        occ(s.push(x), q) == occ(s, q) + (if x == q {
            1nat
        } else {
            0nat
        }),
{
    assert(s.push(x).drop_last() =~= s);
}

proof fn lemma_occ_concat(a: Seq<usize>, b: Seq<usize>, q: int)
    ensures
        occ(a + b, q) == occ(a, q) + occ(b, q),
    decreases b.len(),
{
    if b.len() == 0 {
        assert(a + b =~= a);
    } else {
        assert((a + b).drop_last() =~= a + b.drop_last());
        lemma_occ_concat(a, b.drop_last(), q);
    }
}

proof fn lemma_occ_skip(s: Seq<usize>, j: int, q: int)
    requires
        0 <= j < s.len(),
    ensures
        occ(s.skip(j), q) == occ(s.skip(j + 1), q) + (if s[j] == q {
            1nat
        } else {
            0nat
        }),
{
    assert(s.skip(j) =~= seq![s[j]] + s.skip(j + 1));
    lemma_occ_concat(seq![s[j]], s.skip(j + 1), q);
    assert(seq![s[j]].drop_last() =~= Seq::<usize>::empty());
    assert(occ(Seq::<usize>::empty(), q) == 0);
    assert(occ(seq![s[j]], q) == (if s[j] == q {
        1nat
    } else {
        0nat
    }));
}

proof fn lemma_occ_absent(s: Seq<usize>, q: int)
    requires
        forall|k: int| 0 <= k < s.len() ==> s[k] != q,
    ensures
        occ(s, q) == 0,
    decreases s.len(),
{
    if s.len() > 0 {
        lemma_occ_absent(s.drop_last(), q);
    }
}

proof fn lemma_occ_present(s: Seq<usize>, k: int, q: int)
    requires
        0 <= k < s.len(),
        s[k] == q,
    ensures
        occ(s, q) >= 1,
    decreases s.len(),
{
    if k == s.len() - 1 {
    } else {
        lemma_occ_present(s.drop_last(), k, q);
    }
}

proof fn lemma_occ_take_step(s: Seq<usize>, j: int, q: int)
    requires
        0 <= j < s.len(),
    ensures
        occ(s.take(j + 1), q) == occ(s.take(j), q) + (if s[j] == q {
            1nat
        } else {
            0nat
        }),
{
    assert(s.take(j + 1).drop_last() =~= s.take(j));
    assert(s.take(j + 1).last() == s[j]);
}

proof fn lemma_occ_le_len(s: Seq<usize>, q: int)
    ensures
        occ(s, q) <= s.len(),
    decreases s.len(),
{
    if s.len() > 0 {
        lemma_occ_le_len(s.drop_last(), q);
    }
}

/// Total of all reference counts held by the store.
pub open spec fn sum_counts(s: Seq<u32>) -> int
    decreases s.len(),
{
    if s.len() == 0 {
        0
    } else {
        sum_counts(s.drop_last()) + s.last()
    }
}

proof fn lemma_sum_nonneg(s: Seq<u32>)
    ensures
        sum_counts(s) >= 0,
    decreases s.len(),
{
    if s.len() > 0 {
        lemma_sum_nonneg(s.drop_last());
    }
}

proof fn lemma_sum_update(s: Seq<u32>, i: int, v: u32)
    requires
        0 <= i < s.len(),
    ensures
        sum_counts(s.update(i, v)) == sum_counts(s) - s[i] + v,
    decreases s.len(),
{
    if i == s.len() - 1 {
        assert(s.update(i, v).drop_last() =~= s.drop_last());
    } else {
        assert(s.update(i, v).drop_last() =~= s.drop_last().update(i, v));
        lemma_sum_update(s.drop_last(), i, v);
    }
}

/// References into `q` held by the live resources among the first `n`,
/// through their retain lists.
pub open spec fn edges_upto(counts: Seq<u32>, retains: Seq<Seq<usize>>, q: int, n: int) -> nat
    decreases n,
{
    if n <= 0 {
        0
    } else {
        edges_upto(counts, retains, q, n - 1) + (if 0 < counts[n - 1] {
            occ(retains[n - 1], q)
        } else {
            0nat
        })
    }
}

proof fn lemma_edges_congruence(
    c1: Seq<u32>,
    r1: Seq<Seq<usize>>,
    c2: Seq<u32>,
    r2: Seq<Seq<usize>>,
    q: int,
    n: int,
)
    requires
        forall|i: int| 0 <= i < n ==> ((0 < c1[i]) <==> (0 < #[trigger] c2[i])),
        forall|i: int| 0 <= i < n ==> r1[i] == #[trigger] r2[i],
    ensures
        edges_upto(c1, r1, q, n) == edges_upto(c2, r2, q, n),
    decreases n,
{
    if n > 0 {
        lemma_edges_congruence(c1, r1, c2, r2, q, n - 1);
    }
}

proof fn lemma_edges_kill(counts: Seq<u32>, retains: Seq<Seq<usize>>, id: int, q: int, n: int)
    requires
        0 <= id < counts.len(),
        0 < counts[id],
        n <= counts.len(),
    ensures
        edges_upto(counts.update(id, 0), retains, q, n) + (if id < n {
            occ(retains[id], q)
        } else {
            0nat
        }) == edges_upto(counts, retains, q, n),
    decreases n,
{
    if n > 0 {
        lemma_edges_kill(counts, retains, id, q, n - 1);
        let updated = counts.update(id, 0);
        if id == n - 1 {
            assert(updated[n - 1] == 0);
            assert(edges_upto(updated, retains, q, n) == edges_upto(updated, retains, q, n - 1));
        } else {
            assert(updated[n - 1] == counts[n - 1]);
        }
    }
}

proof fn lemma_edges_lower(counts: Seq<u32>, retains: Seq<Seq<usize>>, c: int, q: int, n: int)
    requires
        0 <= c < n,
        0 < counts[c],
    ensures
        edges_upto(counts, retains, q, n) >= occ(retains[c], q),
    decreases n,
{
    if c < n - 1 {
        lemma_edges_lower(counts, retains, c, q, n - 1);
    }
}


pub(crate) proof fn lemma_prefix_trans(a: Seq<usize>, b: Seq<usize>, c: Seq<usize>)
    requires
        a.is_prefix_of(b),
        b.is_prefix_of(c),
    ensures
        a.is_prefix_of(c),
{
    assert(a =~= c.take(a.len() as int));
}

/// A plain element-by-element copy of an id list.
fn copy_ids(v: &Vec<usize>) -> (r: Vec<usize>)
    ensures
        r@ == v@,
{
    let mut r: Vec<usize> = Vec::new();
    let mut j: usize = 0;
    while j < v.len()
        invariant
            j <= v@.len(),
            r@ == v@.take(j as int),
        decreases v@.len() - j,
    {
        r.push(v[j]);
        proof {
            assert(r@ =~= v@.take(j as int + 1));
        }
        j += 1;
    }
    proof {
        assert(v@.take(v@.len() as int) =~= v@);
    }
    r
}


proof fn lemma_log_ordered_preserved(s1: HandleStore, s2: HandleStore)
    requires
        s1.log_ordered(),
        s2.log_view() == s1.log_view(),
        forall|e: int|
            0 <= e < s1.log_view().len() ==> s2.retains_view()[#[trigger] s1.log_view()[e] as int]
                == s1.retains_view()[s1.log_view()[e] as int],
    ensures
        s2.log_ordered(),
{
    assert forall|a: int, b: int|
        0 <= a < s2.log_view().len() && 0 <= b < s2.log_view().len() && #[trigger] s2.edge_to(
            s2.log_view()[a] as int,
            s2.log_view()[b] as int,
        ) implies a < b by {
        let c = s2.log_view()[a] as int;
        let p = s2.log_view()[b] as int;
        let k = choose|k: int|
            0 <= k < s2.retains_view()[c].len() && s2.retains_view()[c][k] == p;
        assert(s1.retains_view()[c][k] == p);
        assert(s1.edge_to(c, p));
    }
}

/// A claim on one reference to a store resource. It cannot be copied;
/// [`HandleStore::retain`] mints a further claim and counts it, and
/// [`HandleStore::release`] consumes one and gives the reference back.
/// Two handles name the same resource exactly when they are equal.
#[derive(Debug, PartialEq, Eq, Structural)]
pub struct SharedHandle {
    id: usize,
}

impl SharedHandle {
    /// The resource this handle refers to.
    pub closed spec fn id_spec(&self) -> int {
        self.id as int
    }

    /// The resource this handle refers to.
    pub fn id(&self) -> (r: usize)
        ensures
            r == self.id_spec(),
    {
        self.id
    }
}

/// The registry of engine resources: one reference count, retain list and
/// kind per resource, plus the log of disposals in the order they happened.
pub struct HandleStore {
    counts: Vec<u32>,
    externals: Vec<u32>,
    retains: Vec<Vec<usize>>,
    kinds: Vec<ResourceKind>,
    log: Vec<usize>,
}

impl HandleStore {
    /// Reference count per resource.
    pub closed spec fn counts_view(self) -> Seq<u32> {
        self.counts@
    }

    /// Handle-held (externally owned) references per resource.
    pub closed spec fn externals_view(self) -> Seq<u32> {
        self.externals@
    }

    /// Retain list per resource: the dependencies it keeps alive.
    pub closed spec fn retains_view(self) -> Seq<Seq<usize>> {
        self.retains@.map_values(|v: Vec<usize>| v@)
    }

    /// Kind per resource.
    pub closed spec fn kinds_view(self) -> Seq<ResourceKind> {
        self.kinds@
    }

    /// Every disposal so far, oldest first.
    pub closed spec fn log_view(self) -> Seq<usize> {
        self.log@
    }

    /// Number of resources ever allocated.
    pub open spec fn n(self) -> int {
        self.counts_view().len() as int
    }

    /// `q` was allocated and still has references.
    pub open spec fn live(self, q: int) -> bool {
        0 <= q < self.n() && 0 < self.counts_view()[q]
    }

    /// `q` was allocated and its last reference has been released.
    pub open spec fn disposed(self, q: int) -> bool {
        0 <= q < self.n() && self.counts_view()[q] == 0
    }

    /// References into `q` held by live resources through retain lists.
    pub open spec fn edges(self, q: int) -> nat {
        edges_upto(self.counts_view(), self.retains_view(), q, self.n())
    }

    /// `q` appears in the disposal log.
    pub open spec fn logged(self, q: int) -> bool {
        exists|i: int| 0 <= i < self.log_view().len() && self.log_view()[i] == q
    }

    /// The structural part of the invariant: all tables are the same
    /// length, and retain lists point only at older resources (a resource
    /// can only retain what existed before it, so the dependency graph is
    /// acyclic).
    pub open spec fn wf_basic(self) -> bool {
        &&& self.externals_view().len() == self.n()
        &&& self.retains_view().len() == self.n()
        &&& self.kinds_view().len() == self.n()
        &&& forall|c: int, k: int|
            0 <= c < self.n() && 0 <= k < self.retains_view()[c].len() ==> (
            #[trigger] self.retains_view()[c][k]) < c
    }

    /// Reference-count accounting, with `pending` references in flight:
    /// each count is exactly the retain-list references plus the
    /// handle-held references plus the in-flight ones.
    pub open spec fn counts_balanced(self, pending: Seq<usize>) -> bool {
        forall|q: int|
            0 <= q < self.n() ==> (#[trigger] self.counts_view()[q]) as int == self.edges(q)
                + self.externals_view()[q] + occ(pending, q)
    }

    /// `c` retains `p`: `p` appears in `c`'s retain list.
    pub open spec fn edge_to(self, c: int, p: int) -> bool {
        exists|k: int|
            0 <= k < self.retains_view()[c].len() && self.retains_view()[c][k] == p
    }

    /// Disposal order respects the dependency graph: a resource is always
    /// logged before anything it retained, so a dependency is never
    /// disposed while a dependent might still reach it.
    pub open spec fn log_ordered(self) -> bool {
        forall|a: int, b: int|
            0 <= a < self.log_view().len() && 0 <= b < self.log_view().len() && #[trigger] self.edge_to(
                self.log_view()[a] as int,
                self.log_view()[b] as int,
            ) ==> a < b
    }

    /// The disposal log lists exactly the disposed resources, each once,
    /// in dependency order.
    pub open spec fn log_wf(self) -> bool {
        &&& self.log_exact()
        &&& self.log_ordered()
    }

    /// The disposal log lists exactly the disposed resources, each once.
    pub open spec fn log_exact(self) -> bool {
        &&& forall|i: int, j: int|
            0 <= i < j < self.log_view().len() ==> #[trigger] self.log_view()[i] != #[trigger] self.log_view()[j]
        &&& forall|i: int| 0 <= i < self.log_view().len() ==> (#[trigger] self.log_view()[i]) < self.n()
        &&& forall|q: int| 0 <= q < self.n() ==> ((self.counts_view()[q] == 0) <==> self.logged(q))
    }

    /// The store's invariant while `pending` references are in flight.
    pub open spec fn wf_pending(self, pending: Seq<usize>) -> bool {
        &&& self.wf_basic()
        &&& self.counts_balanced(pending)
        &&& self.log_wf()
    }

    /// The store's invariant between operations.
    pub open spec fn wf(self) -> bool {
        self.wf_pending(Seq::<usize>::empty())
    }

    /// An empty store.
    pub fn new() -> (r: HandleStore)
        ensures
            r.wf(),
            r.n() == 0,
            r.log_view() == Seq::<usize>::empty(),
    {
        HandleStore {
            counts: Vec::new(),
            externals: Vec::new(),
            retains: Vec::new(),
            kinds: Vec::new(),
            log: Vec::new(),
        }
    }

    /// How many resources were ever allocated.
    pub fn resource_count(&self) -> (r: usize)
        ensures
            r == self.n(),
    {
        self.counts.len()
    }

    /// The current reference count of `id`.
    pub fn ref_count(&self, id: usize) -> (r: u32)
        requires
            id < self.n(),
        ensures
            r == self.counts_view()[id as int],
    {
        self.counts[id]
    }

    /// Whether `id` has been disposed.
    pub fn is_disposed(&self, id: usize) -> (r: bool)
        requires
            id < self.n(),
        ensures
            r == self.disposed(id as int),
    {
        self.counts[id] == 0
    }

    /// The kind `id` was allocated for.
    pub fn kind_of(&self, id: usize) -> (r: ResourceKind)
        requires
            id < self.n(),
            self.wf(),
        ensures
            r == self.kinds_view()[id as int],
    {
        self.kinds[id]
    }

    /// Every disposal so far, oldest first.
    pub fn dispose_log(&self) -> (r: &Vec<usize>)
        ensures
            r@ == self.log_view(),
    {
        &self.log
    }

    /// Registers a fresh resource with a single reference, held by the
    /// returned handle.
    pub fn allocate(&mut self, kind: ResourceKind) -> (h: SharedHandle)
        requires
            old(self).wf(),
        ensures
            final(self).wf(),
            h.id_spec() == old(self).n(),
            final(self).n() == old(self).n() + 1,
            final(self).counts_view() == old(self).counts_view().push(1u32),
            final(self).externals_view() == old(self).externals_view().push(1u32),
            final(self).retains_view() == old(self).retains_view().push(Seq::<usize>::empty()),
            final(self).kinds_view() == old(self).kinds_view().push(kind),
            final(self).log_view() == old(self).log_view(),
    {
        let id = self.counts.len();
        self.counts.push(1);
        self.externals.push(1);
        self.retains.push(Vec::new());
        self.kinds.push(kind);
        proof {
            assert(self.retains_view() =~= old(self).retains_view().push(Seq::<usize>::empty()));
            self.lemma_allocate_wf(*old(self));
        }
        SharedHandle { id }
    }

    proof fn lemma_allocate_wf(self, prev: HandleStore)
        requires
            prev.wf(),
            self.counts_view() == prev.counts_view().push(1u32),
            self.externals_view() == prev.externals_view().push(1u32),
            self.retains_view() == prev.retains_view().push(Seq::<usize>::empty()),
            self.kinds_view().len() == prev.kinds_view().len() + 1,
            self.log_view() == prev.log_view(),
        ensures
            self.wf(),
    {
        let n = prev.n();
        assert(self.wf_basic());
        assert forall|q: int| 0 <= q < self.n() implies (#[trigger] self.counts_view()[q]) as int
            == self.edges(q) + self.externals_view()[q] + occ(Seq::<usize>::empty(), q) by {
            assert(q < n ==> prev.counts_view()[q] as int == prev.edges(q) + prev.externals_view()[q]
                + occ(Seq::<usize>::empty(), q));
            lemma_edges_congruence(
                self.counts_view(),
                self.retains_view(),
                prev.counts_view(),
                prev.retains_view(),
                q,
                n,
            );
            assert(edges_upto(self.counts_view(), self.retains_view(), q, n + 1) == edges_upto(
                self.counts_view(),
                self.retains_view(),
                q,
                n,
            ) + occ(Seq::<usize>::empty(), q));
            if q == n {
                lemma_edges_absent(self.counts_view(), self.retains_view(), q, n);
                assert(self.counts_view()[q] == 1);
            }
        }
        assert(self.counts_balanced(Seq::<usize>::empty()));
        assert forall|q: int| 0 <= q < self.n() implies ((self.counts_view()[q] == 0)
            <==> self.logged(q)) by {
            assert forall|i: int| 0 <= i < self.log_view().len() implies (
            #[trigger] self.log_view()[i]) < n by {
                assert(prev.log_view()[i] < n);
            }
            if q < n {
                assert((prev.counts_view()[q] == 0) <==> prev.logged(q));
                if prev.logged(q) {
                    let i = choose|i: int|
                        0 <= i < prev.log_view().len() && prev.log_view()[i] == q;
                    assert(self.log_view()[i] == q);
                }
                if self.logged(q) {
                    let i = choose|i: int|
                        0 <= i < self.log_view().len() && self.log_view()[i] == q;
                    assert(prev.log_view()[i] == q);
                }
            } else {
                assert(self.counts_view()[q] == 1);
                if self.logged(q) {
                    let i = choose|i: int|
                        0 <= i < self.log_view().len() && self.log_view()[i] == q;
                    assert(prev.log_view()[i] < n);
                }
            }
        }
        assert forall|e: int| 0 <= e < prev.log_view().len() implies self.retains_view()[
            #[trigger] prev.log_view()[e] as int] == prev.retains_view()[prev.log_view()[e] as int] by {
            assert(prev.log_view()[e] < n);
        }
        lemma_log_ordered_preserved(prev, self);
        assert(self.log_wf());
    }



    /// Gives back one reference to `id`, with `pending` further references
    /// already accounted as in flight. If it was the last reference, `id`
    /// is disposed: it is logged, and every reference it held through its
    /// retain list is given back in turn, cascading down the dependency
    /// graph.
    fn drop_ref(&mut self, id: usize, pending: Ghost<Seq<usize>>)
        requires
            old(self).wf_pending(pending@.push(id)),
            id < old(self).n(),
        ensures
            final(self).wf_pending(pending@),
            final(self).n() == old(self).n(),
            final(self).retains_view() == old(self).retains_view(),
            final(self).kinds_view() == old(self).kinds_view(),
            final(self).externals_view() == old(self).externals_view(),
            final(self).counts_view()[id as int] as int == old(self).counts_view()[id as int] - 1,
            forall|q: int|
                id < q < old(self).n() ==> final(self).counts_view()[q] == old(self).counts_view()[q],
            forall|q: int|
                0 <= q < old(self).n() ==> final(self).counts_view()[q] <= old(self).counts_view()[q],
            sum_counts(final(self).counts_view()) < sum_counts(old(self).counts_view()),
            old(self).log_view().is_prefix_of(final(self).log_view()),
            old(self).counts_view()[id as int] > 1 ==> final(self).counts_view() == old(
                self,
            ).counts_view().update(id as int, (old(self).counts_view()[id as int] - 1) as u32)
                && final(self).log_view() == old(self).log_view(),
            old(self).counts_view()[id as int] == 1 ==> final(self).log_view().len() > old(
                self,
            ).log_view().len() && final(self).log_view()[old(self).log_view().len() as int] == id,
        decreases sum_counts(old(self).counts_view()),
    {
        proof {
            lemma_occ_push(pending@, id, id as int);
            assert(old(self).counts_view()[id as int] as int == old(self).edges(id as int) + old(
                self,
            ).externals_view()[id as int] + occ(pending@.push(id), id as int));
        }
        let c = self.counts[id];
        self.counts[id] = c - 1;
        proof {
            lemma_sum_update(old(self).counts_view(), id as int, (c - 1) as u32);
        }
        if c == 1 {
            let ghost prev = *old(self);
            let ghost n = prev.n();
            let ghost kids = prev.retains_view()[id as int];
            proof {
                // the disposed resource held no references to itself or to
                // anything at all, beyond its retain list
                assert(forall|k: int| 0 <= k < kids.len() ==> #[trigger] kids[k] < id);
                assert(forall|k: int| 0 <= k < kids.len() ==> #[trigger] kids[k] != id);
                lemma_occ_absent(kids, id as int);
                assert(self.counts@ =~= prev.counts_view().update(id as int, 0u32));
            }
            self.log.push(id);
            proof {
                // accounting after the disposal: the retain list of `id`
                // joins the in-flight references
                assert forall|q: int| 0 <= q < self.n() implies (
                #[trigger] self.counts_view()[q]) as int == self.edges(q)
                    + self.externals_view()[q] + occ(pending@ + kids, q) by {
                    lemma_edges_kill(prev.counts_view(), prev.retains_view(), id as int, q, n);
                    lemma_edges_congruence(
                        self.counts_view(),
                        self.retains_view(),
                        prev.counts_view().update(id as int, 0u32),
                        prev.retains_view(),
                        q,
                        n,
                    );
                    lemma_occ_concat(pending@, kids, q);
                    lemma_occ_push(pending@, id, q);
                    assert(prev.counts_view()[q] as int == prev.edges(q) + prev.externals_view()[q]
                        + occ(pending@.push(id), q));
                }
                // the log gains exactly `id`, which was live until now
                assert((prev.counts_view()[id as int] == 0) <==> prev.logged(id as int));
                assert forall|q: int| 0 <= q < self.n() implies ((self.counts_view()[q] == 0)
                    <==> self.logged(q)) by {
                    assert((prev.counts_view()[q] == 0) <==> prev.logged(q));
                    if q == id {
                        assert(self.log_view()[prev.log_view().len() as int] == id);
                    } else {
                        if prev.logged(q) {
                            let i = choose|i: int|
                                0 <= i < prev.log_view().len() && prev.log_view()[i] == q;
                            assert(self.log_view()[i] == q);
                        }
                        if self.logged(q) {
                            let i = choose|i: int|
                                0 <= i < self.log_view().len() && self.log_view()[i] == q;
                            assert(i < prev.log_view().len());
                            assert(prev.log_view()[i] == q);
                        }
                    }
                }
                assert forall|i: int, j: int|
                    0 <= i < j < self.log_view().len() implies #[trigger] self.log_view()[i]
                    != #[trigger] self.log_view()[j] by {
                    if j == prev.log_view().len() {
                        assert(self.log_view()[j] == id);
                        assert(!prev.logged(id as int));
                        assert(prev.log_view()[i] != id);
                    }
                }
                let big = prev.log_view().len() as int;
                assert forall|a: int, b: int|
                    0 <= a < self.log_view().len() && 0 <= b < self.log_view().len()
                        && #[trigger] self.edge_to(
                        self.log_view()[a] as int,
                        self.log_view()[b] as int,
                    ) implies a < b by {
                    let c = self.log_view()[a] as int;
                    let p = self.log_view()[b] as int;
                    let k = choose|k: int|
                        0 <= k < self.retains_view()[c].len() && self.retains_view()[c][k] == p;
                    if a == big {
                        // the new entry `id` still retained `p`, so `p` was
                        // live a moment ago and cannot already be logged
                        assert(c == id);
                        assert(prev.retains_view()[c][k] == p);
                        assert(p < id);
                        lemma_occ_present(prev.retains_view()[id as int], k, p);
                        lemma_edges_lower(
                            prev.counts_view(),
                            prev.retains_view(),
                            id as int,
                            p,
                            n,
                        );
                        assert(prev.counts_view()[p] as int == prev.edges(p)
                            + prev.externals_view()[p] + occ(pending@.push(id), p));
                        assert(prev.counts_view()[p] > 0);
                        assert(!prev.logged(p));
                        if b < big {
                            assert(prev.log_view()[b] == p);
                            assert(prev.logged(p));
                            assert(false);
                        } else {
                            assert(self.log_view()[b] == id);
                            assert(false);
                        }
                    } else {
                        assert(self.log_view()[a] == prev.log_view()[a]);
                        if b < big {
                            assert(self.log_view()[b] == prev.log_view()[b]);
                            assert(prev.retains_view()[c][k] == p);
                            assert(prev.edge_to(c, p));
                        }
                    }
                }
                assert(self.log_ordered());
                assert(self.log_wf());
                assert(self.wf_pending(pending@ + kids));
                assert(prev.log_view().is_prefix_of(self.log_view()));
            }
            let children = copy_ids(&self.retains[id]);
            let ghost entry_counts = self.counts@;
            let ghost entry_log = self.log@;
            proof {
                assert(children@.skip(0) =~= children@);
                assert(self.wf_pending(pending@ + children@.skip(0)));
            }
            let mut j: usize = 0;
            #[verifier::loop_isolation(false)]
            while j < children.len()
                invariant
                    j <= children@.len(),
                    children@ == kids,
                    n == prev.n(),
                    kids == prev.retains_view()[id as int],
                    prev.wf_pending(pending@.push(id)),
                    id < n,
                    forall|k: int| 0 <= k < kids.len() ==> #[trigger] kids[k] < id,
                    self.wf_pending(pending@ + children@.skip(j as int)),
                    self.n() == n,
                    self.retains_view() == prev.retains_view(),
                    self.kinds_view() == prev.kinds_view(),
                    self.externals_view() == prev.externals_view(),
                    self.counts_view()[id as int] == 0,
                    forall|q: int|
                        id < q < n ==> self.counts_view()[q] == prev.counts_view()[q],
                    forall|q: int|
                        0 <= q < n ==> self.counts_view()[q] <= prev.counts_view()[q],
                    sum_counts(self.counts_view()) <= sum_counts(prev.counts_view()) - 1,
                    entry_log.is_prefix_of(self.log_view()),
                    entry_log == prev.log_view().push(id),
                decreases children@.len() - j,
            {
                let ch = children[j];
                proof {
                    assert(kids[j as int] == ch);
                    assert(ch < id);
                    // the in-flight multiset is unchanged when the head of
                    // the suffix moves into the call
                    assert forall|q: int| 0 <= q < self.n() implies (
                    #[trigger] self.counts_view()[q]) as int == self.edges(q)
                        + self.externals_view()[q] + occ(
                        (pending@ + children@.skip(j as int + 1)).push(ch),
                        q,
                    ) by {
                        lemma_occ_concat(pending@, children@.skip(j as int), q);
                        lemma_occ_concat(pending@, children@.skip(j as int + 1), q);
                        lemma_occ_skip(children@, j as int, q);
                        lemma_occ_push(pending@ + children@.skip(j as int + 1), ch, q);
                    }
                }
                let ghost before_log = self.log@;
                proof {
                    lemma_sum_nonneg(self.counts@);
                }
                self.drop_ref(ch, Ghost(pending@ + children@.skip(j as int + 1)));
                proof {
                    lemma_prefix_trans(entry_log, before_log, self.log_view());
                }
                j += 1;
            }
            proof {
                assert(children@.skip(children@.len() as int) =~= Seq::<usize>::empty());
                assert(pending@ + Seq::<usize>::empty() =~= pending@);
                assert(self.wf_pending(pending@));
                assert(prev.log_view().is_prefix_of(entry_log));
                lemma_prefix_trans(prev.log_view(), entry_log, self.log_view());
                assert(self.log_view().len() > prev.log_view().len());
                assert(entry_log.is_prefix_of(self.log_view()));
                assert(self.log_view()[prev.log_view().len() as int] == entry_log[prev.log_view().len() as int]);
            }
        } else {
            proof {
                let prev = *old(self);
                assert(self.counts@ =~= prev.counts_view().update(id as int, (c - 1) as u32));
                assert forall|q: int| 0 <= q < self.n() implies (
                #[trigger] self.counts_view()[q]) as int == self.edges(q)
                    + self.externals_view()[q] + occ(pending@, q) by {
                    lemma_edges_congruence(
                        self.counts_view(),
                        self.retains_view(),
                        prev.counts_view(),
                        prev.retains_view(),
                        q,
                        prev.n(),
                    );
                    lemma_occ_push(pending@, id, q);
                    assert(prev.counts_view()[q] as int == prev.edges(q) + prev.externals_view()[q]
                        + occ(pending@.push(id), q));
                }
                assert forall|q: int| 0 <= q < self.n() implies ((self.counts_view()[q] == 0)
                    <==> self.logged(q)) by {
                    assert((prev.counts_view()[q] == 0) <==> prev.logged(q));
                    if prev.logged(q) {
                        let i = choose|i: int|
                            0 <= i < prev.log_view().len() && prev.log_view()[i] == q;
                        assert(self.log_view()[i] == q);
                    }
                    if self.logged(q) {
                        let i = choose|i: int|
                            0 <= i < self.log_view().len() && self.log_view()[i] == q;
                        assert(prev.log_view()[i] == q);
                    }
                }
                lemma_log_ordered_preserved(prev, *self);
                assert(self.log_wf());
                assert(self.wf_pending(pending@));
            }
        }
    }

    /// Releases the reference that `h` holds: the drop of shared
    /// ownership. If it was the last reference, the resource is disposed,
    /// exactly once, and the references it retained are released in turn.
    pub fn release(&mut self, h: SharedHandle)
        requires
            old(self).wf(),
            h.id_spec() < old(self).n(),
            old(self).externals_view()[h.id_spec()] >= 1,
        ensures
            final(self).wf(),
            final(self).n() == old(self).n(),
            final(self).retains_view() == old(self).retains_view(),
            final(self).kinds_view() == old(self).kinds_view(),
            final(self).externals_view() == old(self).externals_view().update(
                h.id_spec(),
                (old(self).externals_view()[h.id_spec()] - 1) as u32,
            ),
            final(self).counts_view()[h.id_spec()] as int == old(self).counts_view()[h.id_spec()]
                - 1,
            forall|q: int|
                h.id_spec() < q < old(self).n() ==> final(self).counts_view()[q] == old(
                    self,
                ).counts_view()[q],
            forall|q: int|
                0 <= q < old(self).n() ==> final(self).counts_view()[q] <= old(
                    self,
                ).counts_view()[q],
            old(self).log_view().is_prefix_of(final(self).log_view()),
            old(self).counts_view()[h.id_spec()] > 1 ==> final(self).counts_view() == old(
                self,
            ).counts_view().update(h.id_spec(), (old(self).counts_view()[h.id_spec()] - 1) as u32)
                && final(self).log_view() == old(self).log_view(),
            old(self).counts_view()[h.id_spec()] == 1 ==> final(self).log_view().len() > old(
                self,
            ).log_view().len() && final(self).log_view()[old(self).log_view().len() as int]
                == h.id_spec(),
    {
        let id = h.id();
        proof {
            assert(old(self).counts_view()[id as int] as int == old(self).edges(id as int) + old(
                self,
            ).externals_view()[id as int] + occ(Seq::<usize>::empty(), id as int));
        }
        let e = self.externals[id];
        self.externals[id] = e - 1;
        proof {
            assert forall|q: int| 0 <= q < self.n() implies (#[trigger] self.counts_view()[q]) as int
                == self.edges(q) + self.externals_view()[q] + occ(
                Seq::<usize>::empty().push(id),
                q,
            ) by {
                lemma_occ_push(Seq::<usize>::empty(), id, q);
                assert(old(self).counts_view()[q] as int == old(self).edges(q) + old(
                    self,
                ).externals_view()[q] + occ(Seq::<usize>::empty(), q));
                lemma_edges_congruence(
                    self.counts_view(),
                    self.retains_view(),
                    old(self).counts_view(),
                    old(self).retains_view(),
                    q,
                    self.n(),
                );
            }
            assert forall|q: int| 0 <= q < self.n() implies ((self.counts_view()[q] == 0)
                <==> self.logged(q)) by {
                assert((old(self).counts_view()[q] == 0) <==> old(self).logged(q));
                if old(self).logged(q) {
                    let i = choose|i: int|
                        0 <= i < old(self).log_view().len() && old(self).log_view()[i] == q;
                    assert(self.log_view()[i] == q);
                }
                if self.logged(q) {
                    let i = choose|i: int|
                        0 <= i < self.log_view().len() && self.log_view()[i] == q;
                    assert(old(self).log_view()[i] == q);
                }
            }
            lemma_log_ordered_preserved(*old(self), *self);
            assert(self.wf_pending(Seq::<usize>::empty().push(id)));
        }
        self.drop_ref(id, Ghost(Seq::<usize>::empty()));
    }

    /// Registers a fresh resource that retains each id in `parents`: the
    /// dependencies it keeps alive. Each occurrence counts one reference,
    /// and all of them are given back when the new resource is disposed.
    pub fn allocate_retaining(&mut self, kind: ResourceKind, parents: Vec<usize>) -> (h:
        SharedHandle)
        requires
            old(self).wf(),
            forall|k: int| 0 <= k < parents@.len() ==> old(self).live(#[trigger] parents@[k] as int),
            forall|k: int|
                0 <= k < parents@.len() ==> old(self).counts_view()[#[trigger] parents@[k] as int]
                    + parents@.len() <= u32::MAX,
        ensures
            final(self).wf(),
            h.id_spec() == old(self).n(),
            final(self).n() == old(self).n() + 1,
            final(self).retains_view() == old(self).retains_view().push(parents@),
            final(self).kinds_view() == old(self).kinds_view().push(kind),
            final(self).log_view() == old(self).log_view(),
            final(self).externals_view() == old(self).externals_view().push(1u32),
            final(self).counts_view()[old(self).n()] == 1,
            forall|q: int|
                0 <= q < old(self).n() ==> (#[trigger] final(self).counts_view()[q]) as int == old(
                    self,
                ).counts_view()[q] + occ(parents@, q),
            forall|q: int| 0 <= q < old(self).n() ==> (final(self).live(q) <==> old(self).live(q)),
    {
        let id = self.counts.len();
        let mut j: usize = 0;
        while j < parents.len()
            invariant
                old(self).wf(),
                forall|k: int|
                    0 <= k < parents@.len() ==> old(self).live(#[trigger] parents@[k] as int),
                forall|k: int|
                    0 <= k < parents@.len() ==> old(self).counts_view()[#[trigger] parents@[k] as int]
                        + parents@.len() <= u32::MAX,
                j <= parents@.len(),
                self.counts@.len() == old(self).counts_view().len(),
                self.externals@ == old(self).externals_view(),
                self.retains@ == old(self).retains@,
                self.kinds@ == old(self).kinds_view(),
                self.log@ == old(self).log_view(),
                forall|q: int|
                    0 <= q < old(self).n() ==> (#[trigger] self.counts@[q]) as int == old(
                        self,
                    ).counts_view()[q] + occ(parents@.take(j as int), q),
            decreases parents@.len() - j,
        {
            proof {
                lemma_occ_le_len(parents@.take(j as int), parents@[j as int] as int);
                lemma_occ_take_step(parents@, j as int, parents@[j as int] as int);
            }
            let p = parents[j];
            let c = self.counts[p];
            self.counts[p] = c + 1;
            proof {
                assert forall|q: int|
                    0 <= q < old(self).n() implies (#[trigger] self.counts@[q]) as int == old(
                    self,
                ).counts_view()[q] + occ(parents@.take(j as int + 1), q) by {
                    lemma_occ_take_step(parents@, j as int, q);
                }
            }
            j += 1;
        }
        proof {
            assert(parents@.take(parents@.len() as int) =~= parents@);
        }
        self.counts.push(1);
        self.externals.push(1);
        self.retains.push(parents);
        self.kinds.push(kind);
        proof {
            let prev = *old(self);
            let n = prev.n();
            let ps = self.retains@[n]@;
            assert(self.retains_view() =~= prev.retains_view().push(ps));
            assert forall|i: int| 0 <= i < n implies ((0 < self.counts_view()[i]) <==> (0
                < #[trigger] prev.counts_view()[i])) by {
                if prev.counts_view()[i] == 0 {
                    assert(forall|k: int| 0 <= k < parents@.len() ==> #[trigger] parents@[k] != i);
                    lemma_occ_absent(parents@, i);
                }
            }
            assert forall|q: int| 0 <= q < self.n() implies (#[trigger] self.counts_view()[q]) as int
                == self.edges(q) + self.externals_view()[q] + occ(Seq::<usize>::empty(), q) by {
                assert(edges_upto(self.counts_view(), self.retains_view(), q, n + 1) == edges_upto(
                    self.counts_view(),
                    self.retains_view(),
                    q,
                    n,
                ) + occ(ps, q));
                lemma_edges_congruence(
                    self.counts_view(),
                    self.retains_view(),
                    prev.counts_view(),
                    prev.retains_view(),
                    q,
                    n,
                );
                if q < n {
                    assert(prev.counts_view()[q] as int == prev.edges(q) + prev.externals_view()[q]
                        + occ(Seq::<usize>::empty(), q));
                } else {
                    assert(forall|k: int| 0 <= k < ps.len() ==> #[trigger] ps[k] != q);
                    lemma_occ_absent(ps, q);
                    lemma_edges_absent(self.counts_view(), self.retains_view(), q, n);
                    assert(self.counts_view()[q] == 1);
                }
            }
            assert(self.counts_balanced(Seq::<usize>::empty()));
            assert(self.wf_basic());
            assert forall|q: int| 0 <= q < self.n() implies ((self.counts_view()[q] == 0)
                <==> self.logged(q)) by {
                assert forall|i: int| 0 <= i < self.log_view().len() implies (
                #[trigger] self.log_view()[i]) < n by {
                    assert(prev.log_view()[i] < n);
                }
                if q < n {
                    assert((prev.counts_view()[q] == 0) <==> prev.logged(q));
                    if prev.counts_view()[q] == 0 {
                        assert(forall|k: int| 0 <= k < parents@.len() ==> #[trigger] parents@[k] != q);
                        lemma_occ_absent(parents@, q);
                    }
                    if prev.logged(q) {
                        let i = choose|i: int|
                            0 <= i < prev.log_view().len() && prev.log_view()[i] == q;
                        assert(self.log_view()[i] == q);
                    }
                    if self.logged(q) {
                        let i = choose|i: int|
                            0 <= i < self.log_view().len() && self.log_view()[i] == q;
                        assert(prev.log_view()[i] == q);
                    }
                } else {
                    assert(self.counts_view()[q] == 1);
                    if self.logged(q) {
                        let i = choose|i: int|
                            0 <= i < self.log_view().len() && self.log_view()[i] == q;
                        assert(prev.log_view()[i] < n);
                    }
                }
            }
            assert forall|e: int| 0 <= e < prev.log_view().len() implies self.retains_view()[
                #[trigger] prev.log_view()[e] as int] == prev.retains_view()[prev.log_view()[e] as int] by {
                assert(prev.log_view()[e] < n);
            }
            lemma_log_ordered_preserved(prev, *self);
            assert(self.log_wf());
            assert forall|q: int| 0 <= q < n implies ((self.live(q) <==> prev.live(q))) by {
                if prev.counts_view()[q] == 0 {
                    assert(forall|k: int| 0 <= k < parents@.len() ==> #[trigger] parents@[k] != q);
                    lemma_occ_absent(parents@, q);
                }
            }
        }
        SharedHandle { id }
    }

    /// Mints a further handle to `id`, counting one more reference: the
    /// clone operation of shared ownership. Never touches the resource.
    pub fn retain(&mut self, id: usize) -> (h: SharedHandle)
        requires
            old(self).wf(),
            old(self).live(id as int),
            old(self).counts_view()[id as int] < u32::MAX,
        ensures
            final(self).wf(),
            h.id_spec() == id,
            final(self).n() == old(self).n(),
            final(self).counts_view() == old(self).counts_view().update(
                id as int,
                (old(self).counts_view()[id as int] + 1) as u32,
            ),
            final(self).externals_view() == old(self).externals_view().update(
                id as int,
                (old(self).externals_view()[id as int] + 1) as u32,
            ),
            final(self).retains_view() == old(self).retains_view(),
            final(self).kinds_view() == old(self).kinds_view(),
            final(self).log_view() == old(self).log_view(),
    {
        proof {
            // the balance equation bounds the external count by the total
            assert(old(self).counts_balanced(Seq::<usize>::empty()));
            assert(old(self).counts_view()[id as int] as int == old(self).edges(id as int) + old(
                self,
            ).externals_view()[id as int] + occ(Seq::<usize>::empty(), id as int));
        }
        let c = self.counts[id];
        let e = self.externals[id];
        self.counts[id] = c + 1;
        self.externals[id] = e + 1;
        proof {
            assert(self.wf_basic());
            assert forall|q: int| 0 <= q < self.n() implies (#[trigger] self.counts_view()[q]) as int
                == self.edges(q) + self.externals_view()[q] + occ(Seq::<usize>::empty(), q) by {
                assert(old(self).counts_view()[q] as int == old(self).edges(q) + old(
                    self,
                ).externals_view()[q] + occ(Seq::<usize>::empty(), q));
                lemma_edges_congruence(
                    self.counts_view(),
                    self.retains_view(),
                    old(self).counts_view(),
                    old(self).retains_view(),
                    q,
                    self.n(),
                );
            }
            assert(self.counts_balanced(Seq::<usize>::empty()));
            assert(self.log_view() == old(self).log_view());
            assert forall|q: int| 0 <= q < self.n() implies ((self.counts_view()[q] == 0)
                <==> self.logged(q)) by {
                assert((old(self).counts_view()[q] == 0) <==> old(self).logged(q));
                if old(self).logged(q) {
                    let i = choose|i: int|
                        0 <= i < old(self).log_view().len() && old(self).log_view()[i] == q;
                    assert(self.log_view()[i] == q);
                }
                if self.logged(q) {
                    let i = choose|i: int|
                        0 <= i < self.log_view().len() && self.log_view()[i] == q;
                    assert(old(self).log_view()[i] == q);
                }
            }
            lemma_log_ordered_preserved(*old(self), *self);
            assert(self.log_wf());
        }
        SharedHandle { id }
    }
}

/// If every retain list among the first `n` mentions only ids below `q`,
/// no references into `q` exist.
proof fn lemma_edges_absent(counts: Seq<u32>, retains: Seq<Seq<usize>>, q: int, n: int)
    requires
        forall|c: int, k: int|
            0 <= c < n && 0 <= k < retains[c].len() ==> (#[trigger] retains[c][k]) < q,
    ensures
        edges_upto(counts, retains, q, n) == 0,
    decreases n,
{
    if n > 0 {
        lemma_edges_absent(counts, retains, q, n - 1);
        assert(forall|k: int| 0 <= k < retains[n - 1].len() ==> #[trigger] retains[n - 1][k] != q);
        lemma_occ_absent(retains[n - 1], q);
    }
}


/// LAW: for all handles to one resource, at most one disposal is ever
/// recorded — the log never names a resource twice.
pub proof fn lemma_dispose_at_most_once(s: HandleStore, i: int, j: int)
    requires
        s.wf(),
        0 <= i < s.log_view().len(),
        0 <= j < s.log_view().len(),
        i != j,
    ensures
        s.log_view()[i] != s.log_view()[j],
{
}

/// LAW: a resource is disposed exactly when its disposal is recorded, so
/// releasing the last reference cannot be silently forgotten.
pub proof fn lemma_disposed_iff_logged(s: HandleStore, q: int)
    requires
        s.wf(),
        0 <= q < s.n(),
    ensures
        s.disposed(q) <==> s.logged(q),
{
}

/// LAW: disposal happens only after every reference is gone — a disposed
/// resource has no handle-held references and no references from retain
/// lists of live resources.
pub proof fn lemma_disposed_only_after_release(s: HandleStore, q: int)
    requires
        s.wf(),
        s.disposed(q),
    ensures
        s.externals_view()[q] == 0,
        s.edges(q) == 0,
{
    assert(s.counts_view()[q] as int == s.edges(q) + s.externals_view()[q] + occ(
        Seq::<usize>::empty(),
        q,
    ));
}

/// LAW: teardown order. While any live resource retains `p`, releasing
/// other references never disposes `p`: a dependency outlives all its
/// live dependents.
pub proof fn lemma_retained_outlives(s: HandleStore, c: int, k: int)
    requires
        s.wf(),
        s.live(c),
        0 <= k < s.retains_view()[c].len(),
    ensures
        s.live(s.retains_view()[c][k] as int),
        !s.disposed(s.retains_view()[c][k] as int),
{
    let p = s.retains_view()[c][k] as int;
    assert(0 <= p < c);
    lemma_occ_present(s.retains_view()[c], k, p);
    lemma_edges_lower(s.counts_view(), s.retains_view(), c, p, s.n());
    assert(s.counts_view()[p] as int == s.edges(p) + s.externals_view()[p] + occ(
        Seq::<usize>::empty(),
        p,
    ));
}

/// LAW: teardown order in the record. When a resource and one of its
/// dependencies have both been disposed, the dependent was disposed
/// strictly earlier.
pub proof fn lemma_dependent_disposed_first(s: HandleStore, a: int, b: int)
    requires
        s.wf(),
        0 <= a < s.log_view().len(),
        0 <= b < s.log_view().len(),
        s.edge_to(s.log_view()[a] as int, s.log_view()[b] as int),
    ensures
        a < b,
{
}

} // verus!
