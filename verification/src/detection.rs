//! The detection pipeline: detectors run in priority order, each barred from the regions
//! that earlier ones have claimed, and every element found receives a fresh reference.

use vstd::prelude::*;
use std::sync::Arc;
use crate::element::Element;
use crate::geometry::{Bounds, Dimensions, Position};
use crate::grid::Grid;
use crate::text::{
    append_chars, decimal, decimal_chars, from_chars, is_digit, lemma_decimal_digits,
    lemma_decimal_injective, str_eq, to_chars,
};

verus! {

/// How sure a detector is of an element.
#[derive(Debug, Clone, Copy, PartialEq, Eq, PartialOrd, Ord, Structural)]
pub enum Confidence {
    /// A guess.
    Low,
    /// Probable.
    Medium,
    /// Certain.
    High,
}

impl Confidence {
    /// The place of the level in the order low, medium, high.
    pub open spec fn level(&self) -> int {
        match *self {
            Confidence::Low => 0,
            Confidence::Medium => 1,
            Confidence::High => 2,
        }
    }

    /// The place of the level in the order low, medium, high.
    pub fn rank(&self) -> (r: u8)
        ensures
            r == self.level(),
    {
        match self {
            Confidence::Low => 0,
            Confidence::Medium => 1,
            Confidence::High => 2,
        }
    }

    /// Whether the level is `min` or higher.
    pub fn at_least(&self, min: Confidence) -> (b: bool)
        ensures
            b == (self.level() >= min.level()),
    {
        self.rank() >= min.rank()
    }
}

/// An element as a detector reports it.
#[derive(Debug, Clone, PartialEq)]
pub struct DetectedElement {
    /// The element.
    pub element: Element,
    /// The region that the element claims.
    pub bounds: Bounds,
    /// How sure the detector is.
    pub confidence: Confidence,
}

/// Whether `b` intersects one of the claimed `regions`.
pub open spec fn claimed(regions: Seq<Bounds>, b: Bounds) -> bool {
    exists|i: int| 0 <= i < regions.len() && b.intersects_spec(#[trigger] regions[i])
}

/// The reference made of the type name `kind` and the number `n`: the name, an
/// underscore, and the number in decimal.
pub open spec fn ref_id_text(kind: Seq<char>, n: nat) -> Seq<char> {
    kind + seq!['_'] + decimal(n)
}

/// References are unambiguous: equal references have the same type name and number.
pub proof fn lemma_ref_id_injective(k1: Seq<char>, n1: nat, k2: Seq<char>, n2: nat)
    requires
        ref_id_text(k1, n1) == ref_id_text(k2, n2),
    ensures
        k1 == k2,
        n1 == n2,
{
    let a = ref_id_text(k1, n1);
    let b = ref_id_text(k2, n2);
    let d1 = decimal(n1);
    let d2 = decimal(n2);
    lemma_decimal_digits(n1);
    lemma_decimal_digits(n2);
    assert(a.len() == k1.len() + 1 + d1.len());
    assert(b.len() == k2.len() + 1 + d2.len());
    if d1.len() < d2.len() {
        let p = k1.len() as int;
        assert(a[p] == '_');
        assert(b[p] == d2[p - k2.len() - 1]);
        assert(is_digit(d2[p - k2.len() - 1]));
        assert(false);
    }
    if d2.len() < d1.len() {
        let p = k2.len() as int;
        assert(b[p] == '_');
        assert(a[p] == d1[p - k1.len() - 1]);
        assert(is_digit(d1[p - k1.len() - 1]));
        assert(false);
    }
    assert(k1 =~= k2) by {
        assert forall|i: int| 0 <= i < k1.len() implies k1[i] == k2[i] by {
            assert(a[i] == k1[i]);
            assert(b[i] == k2[i]);
        }
    }
    assert(d1 =~= d2) by {
        assert forall|i: int| 0 <= i < d1.len() implies d1[i] == d2[i] by {
            assert(a[k1.len() + 1 + i] == d1[i]);
            assert(b[k2.len() + 1 + i] == d2[i]);
        }
    }
    lemma_decimal_injective(n1, n2);
}

/// One counter of the generator.
#[derive(Debug, Clone)]
struct Counter {
    name: String,
    count: usize,
}

/// The count kept under `kind`: that of the first counter with this name, or zero.
spec fn count_in(counters: Seq<Counter>, from: int, kind: Seq<char>) -> nat
    decreases counters.len() - from,
{
    if from < 0 || from >= counters.len() {
        0
    } else if counters[from].name@ == kind {
        counters[from].count as nat
    } else {
        count_in(counters, from + 1, kind)
    }
}

/// Hands out references, numbering each type of element from one.
#[derive(Debug, Clone)]
pub struct RefIdGenerator {
    counters: Vec<Counter>,
}

impl RefIdGenerator {
    /// How many references have been handed out for the type `kind` since the last reset.
    pub closed spec fn count(&self, kind: Seq<char>) -> nat {
        count_in(self.counters@, 0, kind)
    }

    /// A generator that has handed out nothing.
    pub fn new() -> (g: Self)
        ensures
            forall|kind: Seq<char>| g.count(kind) == 0,
    {
        RefIdGenerator { counters: Vec::new() }
    }

    /// The next reference for the type `element_type`: the type name, an underscore and
    /// the type's next number. The numbers of a type run 1, 2, 3, and so on; those of other
    /// types are not touched.
    pub fn next(&mut self, element_type: &str) -> (id: String)
        requires
            old(self).count(element_type@) < usize::MAX,
        ensures
            id@ == ref_id_text(element_type@, old(self).count(element_type@) + 1),
            final(self).count(element_type@) == old(self).count(element_type@) + 1,
            forall|kind: Seq<char>|
                kind != element_type@ ==> final(self).count(kind) == old(self).count(kind),
    {
        let n = self.counters.len();
        let ghost before = self.counters@;
        let mut i: usize = 0;
        while i < n && !str_eq(self.counters[i].name.as_str(), element_type)
            invariant
                i <= n,
                n == self.counters.len(),
                self.counters@ == before,
                count_in(before, i as int, element_type@) == count_in(before, 0, element_type@),
                forall|k: int| 0 <= k < i ==> (#[trigger] before[k]).name@ != element_type@,
            decreases n - i,
        {
            i += 1;
        }
        let mut number: usize = 1;
        if i < n {
            assert(count_in(before, i as int, element_type@) == before[i as int].count);
            number = self.counters[i].count + 1;
            let name = String::from_str(element_type);
            self.counters.set(i, Counter { name, count: number });
            proof {
                lemma_count_after_set(before, self.counters@, i as int, element_type@, 0);
            }
        } else {
            let name = String::from_str(element_type);
            self.counters.push(Counter { name, count: 1 });
            proof {
                lemma_count_after_push(before, self.counters@, element_type@, 0);
            }
        }
        let mut text = to_chars(element_type);
        text.push('_');
        let digits = decimal_chars(number as u128);
        append_chars(&mut text, &digits);
        from_chars(&text)
    }

    /// Forgets every count: each type starts again from one.
    pub fn reset(&mut self)
        ensures
            forall|kind: Seq<char>| final(self).count(kind) == 0,
    {
        self.counters = Vec::new();
    }

    /// Forgets the count of the type `element_type`, which starts again from one; other
    /// types keep their counts.
    pub fn reset_type(&mut self, element_type: &str)
        ensures
            final(self).count(element_type@) == 0,
            forall|kind: Seq<char>|
                kind != element_type@ ==> final(self).count(kind) == old(self).count(kind),
    {
        let mut kept: Vec<Counter> = Vec::new();
        let n = self.counters.len();
        let mut i: usize = n;
        while i > 0
            invariant
                i <= n,
                n == self.counters.len(),
                self.counters@ == old(self).counters@,
                count_in(kept@, 0, element_type@) == 0,
                forall|kind: Seq<char>|
                    kind != element_type@ ==> #[trigger] count_in(kept@, 0, kind) == count_in(
                        self.counters@,
                        i as int,
                        kind,
                    ),
            decreases i,
        {
            i -= 1;
            let ghost before = kept@;
            let ghost all = self.counters@;
            if !str_eq(self.counters[i].name.as_str(), element_type) {
                let name = self.counters[i].name.clone();
                let count = self.counters[i].count;
                kept.insert(0, Counter { name, count });
                proof {
                    assert forall|kind: Seq<char>| true implies #[trigger] count_in(kept@, 1, kind)
                        == count_in(before, 0, kind) by {
                        lemma_count_shift(kept@, before, 1, 0, kind);
                    }
                    assert(kept@[0].name@ == all[i as int].name@);
                    assert(count_in(kept@, 0, element_type@) == count_in(kept@, 1, element_type@));
                    assert forall|kind: Seq<char>| kind != element_type@ implies #[trigger] count_in(
                        kept@,
                        0,
                        kind,
                    ) == count_in(all, i as int, kind) by {
                        assert(count_in(kept@, 1, kind) == count_in(before, 0, kind));
                        assert(count_in(before, 0, kind) == count_in(all, i + 1, kind));
                    }
                }
            } else {
                proof {
                    assert forall|kind: Seq<char>| kind != element_type@ implies #[trigger] count_in(
                        kept@,
                        0,
                        kind,
                    ) == count_in(all, i as int, kind) by {
                        assert(count_in(before, 0, kind) == count_in(all, i + 1, kind));
                    }
                }
            }
        }
        self.counters = kept;
    }
}

impl Default for RefIdGenerator {
    /// A generator that has handed out nothing.
    fn default() -> (g: Self)
        ensures
            forall|kind: Seq<char>| g.count(kind) == 0,
    {
        RefIdGenerator::new()
    }
}

/// Counting in a sequence from `a` on is counting in its tail from `b` on, where the tail
/// holds the same counters.
proof fn lemma_count_shift(long: Seq<Counter>, tail: Seq<Counter>, a: int, b: int, kind: Seq<char>)
    requires
        0 <= a,
        0 <= b,
        long.len() - a == tail.len() - b,
        forall|k: int| a <= k < long.len() ==> #[trigger] long[k] == tail[k - a + b],
    ensures
        count_in(long, a, kind) == count_in(tail, b, kind),
    decreases long.len() - a,
{
    if a < long.len() {
        assert(long[a] == tail[a - a + b]);
        if long[a].name@ != kind {
            lemma_count_shift(long, tail, a + 1, b + 1, kind);
        }
    }
}

/// Replacing the first counter named `kind` changes the count of `kind` and of nothing
/// else.
proof fn lemma_count_after_set(
    before: Seq<Counter>,
    after: Seq<Counter>,
    at: int,
    kind: Seq<char>,
    from: int,
)
    requires
        0 <= from <= at < before.len(),
        after.len() == before.len(),
        after[at].name@ == kind,
        before[at].name@ == kind,
        forall|k: int| 0 <= k < before.len() && k != at ==> after[k] == before[k],
        forall|k: int| from <= k < at ==> before[k].name@ != kind,
    ensures
        count_in(after, from, kind) == after[at].count,
        forall|other: Seq<char>|
            other != kind ==> #[trigger] count_in(after, from, other) == count_in(
                before,
                from,
                other,
            ),
    decreases at - from,
{
    if from < at {
        lemma_count_after_set(before, after, at, kind, from + 1);
        assert(after[from] == before[from]);
        assert forall|other: Seq<char>| other != kind implies #[trigger] count_in(
            after,
            from,
            other,
        ) == count_in(before, from, other) by {
            assert(count_in(after, from + 1, other) == count_in(before, from + 1, other));
        }
    } else {
        assert forall|other: Seq<char>| other != kind implies #[trigger] count_in(
            after,
            from,
            other,
        ) == count_in(before, from, other) by {
            lemma_count_shift(after, before, from + 1, from + 1, other);
        }
    }
}

/// Adding a counter for a name that has none gives that name its count and changes
/// nothing else.
proof fn lemma_count_after_push(
    before: Seq<Counter>,
    after: Seq<Counter>,
    kind: Seq<char>,
    from: int,
)
    requires
        0 <= from <= before.len(),
        after.len() == before.len() + 1,
        after.last().name@ == kind,
        forall|k: int| 0 <= k < before.len() ==> after[k] == before[k],
        forall|k: int| from <= k < before.len() ==> before[k].name@ != kind,
    ensures
        count_in(after, from, kind) == after.last().count,
        count_in(before, from, kind) == 0,
        forall|other: Seq<char>|
            other != kind ==> #[trigger] count_in(after, from, other) == count_in(
                before,
                from,
                other,
            ),
    decreases before.len() - from,
{
    if from < before.len() {
        lemma_count_after_push(before, after, kind, from + 1);
        assert(after[from] == before[from]);
        assert forall|other: Seq<char>| other != kind implies #[trigger] count_in(
            after,
            from,
            other,
        ) == count_in(before, from, other) by {
            assert(count_in(after, from + 1, other) == count_in(before, from + 1, other));
        }
    } else {
        assert(after[from] == after.last());
        assert forall|other: Seq<char>| other != kind implies #[trigger] count_in(
            after,
            from,
            other,
        ) == count_in(before, from, other) by {
            assert(count_in(after, from + 1, other) == 0);
        }
    }
}

/// What a detector is told: where the cursor is, which regions are taken, and the state
/// of the reference generator.
#[derive(Debug, Clone)]
pub struct DetectionContext {
    /// The regions claimed so far.
    pub claimed_regions: Vec<Bounds>,
    /// Position of the cursor.
    pub cursor: Position,
    /// The elements of the previous snapshot, where they are known.
    pub previous_elements: Option<Vec<Element>>,
    /// The reference generator of the run.
    pub ref_counter: RefIdGenerator,
}

impl DetectionContext {
    /// The context at the start of a run: nothing claimed, nothing numbered.
    pub fn new(cursor: Position) -> (c: Self)
        ensures
            c.claimed_regions@.len() == 0,
            c.cursor == cursor,
            c.previous_elements is None,
            forall|kind: Seq<char>| c.ref_counter.count(kind) == 0,
    {
        DetectionContext {
            claimed_regions: Vec::new(),
            cursor,
            previous_elements: None,
            ref_counter: RefIdGenerator::new(),
        }
    }

    /// Whether `bounds` intersects a claimed region.
    pub fn is_region_claimed(&self, bounds: &Bounds) -> (b: bool)
        ensures
            b == claimed(self.claimed_regions@, *bounds),
    {
        let mut i: usize = 0;
        while i < self.claimed_regions.len()
            invariant
                i <= self.claimed_regions.len(),
                forall|k: int|
                    0 <= k < i ==> !bounds.intersects_spec(#[trigger] self.claimed_regions@[k]),
            decreases self.claimed_regions.len() - i,
        {
            if bounds.intersects(&self.claimed_regions[i]) {
                return true;
            }
            i += 1;
        }
        false
    }

    /// Claims `bounds`.
    pub fn claim_region(&mut self, bounds: Bounds)
        ensures
            final(self).claimed_regions@ == old(self).claimed_regions@.push(bounds),
            final(self).cursor == old(self).cursor,
            final(self).previous_elements == old(self).previous_elements,
            final(self).ref_counter == old(self).ref_counter,
    {
        self.claimed_regions.push(bounds);
    }
}

/// What every detector owes: each element reported lies on the grid, claims exactly the
/// region it stands on, and touches no region that was claimed before.
pub open spec fn well_behaved(
    found: Seq<DetectedElement>,
    dims: Dimensions,
    claims: Seq<Bounds>,
) -> bool {
    forall|i: int|
        0 <= i < found.len() ==> {
            &&& (#[trigger] found[i]).bounds.fits(dims)
            &&& found[i].element.region() == found[i].bounds
            &&& !claimed(claims, found[i].bounds)
        }
}

/// A detector of one class of widget.
pub trait ElementDetector: Send + Sync {
    /// The name of the detector.
    fn name(&self) -> &'static str;

    /// The priority of the detector; detectors of higher priority run first.
    fn priority(&self) -> u32;

    /// The elements that the detector finds on `grid`. The detector must leave alone the
    /// regions that `context` lists as claimed.
    fn detect(&self, grid: &Grid, context: &DetectionContext) -> (found: Vec<DetectedElement>)
        requires
            grid.wf(),
        ensures
            well_behaved(found@, grid@.dimensions, context.claimed_regions@),
    ;

    /// Whether the detector takes part in a run. A detector that does not say otherwise
    /// takes part.
    fn enabled(&self) -> (on: bool)
        default_ensures
            on,
    {
        true
    }
}

/// Whether `p` is in descending order.
pub open spec fn descending(p: Seq<u32>) -> bool {
    forall|i: int, j: int| 0 <= i < j < p.len() ==> p[i] >= p[j]
}

/// Whether the elements are pairwise distinct in their references.
pub open spec fn distinct_ids(found: Seq<DetectedElement>) -> bool {
    forall|i: int, j: int|
        0 <= i < j < found.len() ==> (#[trigger] found[i]).element.id() != (
        #[trigger] found[j]).element.id()
}

/// Whether every element lies on a grid of size `dims` and claims the region it stands on.
pub open spec fn all_on_grid(found: Seq<DetectedElement>, dims: Dimensions) -> bool {
    forall|i: int|
        0 <= i < found.len() ==> (#[trigger] found[i]).bounds.fits(dims)
            && found[i].element.region() == found[i].bounds
}

/// How many of the first `n` elements are of the type `kind`.
pub open spec fn kind_count(found: Seq<DetectedElement>, n: int, kind: Seq<char>) -> nat
    decreases n,
{
    if n <= 0 || n > found.len() {
        0
    } else if found[n - 1].element.kind() == kind {
        kind_count(found, n - 1, kind) + 1
    } else {
        kind_count(found, n - 1, kind)
    }
}

/// The regions of the elements, in order.
pub open spec fn regions_of(found: Seq<DetectedElement>) -> Seq<Bounds> {
    Seq::new(found.len(), |i: int| found[i].bounds)
}

/// The first `n` batches, one after the other.
pub open spec fn joined(batches: Seq<Seq<DetectedElement>>, n: int) -> Seq<DetectedElement>
    decreases n,
{
    if n <= 0 || n > batches.len() {
        Seq::empty()
    } else {
        joined(batches, n - 1) + batches[n - 1]
    }
}

/// Whether `out` is `cands` with fresh references: element `i` is candidate `i` under the
/// reference of its type and its number, which is one more than the number of candidates
/// of its type before it.
pub open spec fn numbered(out: Seq<DetectedElement>, cands: Seq<DetectedElement>) -> bool {
    &&& out.len() == cands.len()
    &&& forall|i: int|
        0 <= i < out.len() ==> renumbered(
            #[trigger] out[i],
            cands[i],
            kind_count(cands, i, cands[i].element.kind()) + 1,
        )
}

/// Whether `found` is the result of a run in which the detectors reported `batches`, one
/// batch for each detector in running order: each batch keeps to the grid and off the
/// regions of the batches before it, and `found` is the batches one after the other, with
/// fresh references.
pub open spec fn is_run(
    found: Seq<DetectedElement>,
    batches: Seq<Seq<DetectedElement>>,
    dims: Dimensions,
) -> bool {
    &&& forall|k: int|
        0 <= k < batches.len() ==> well_behaved(
            #[trigger] batches[k],
            dims,
            regions_of(joined(batches, k)),
        )
    &&& numbered(found, joined(batches, batches.len() as int))
}

/// Whether `context` is that of a run that has found `all` so far: the regions claimed
/// are those of the elements, in order, and of each type as many references have been
/// handed out as there are elements of it.
pub open spec fn follows(context: DetectionContext, all: Seq<DetectedElement>) -> bool {
    &&& context.claimed_regions@ == regions_of(all)
    &&& forall|kind: Seq<char>|
        context.ref_counter.count(kind) == #[trigger] kind_count(all, all.len() as int, kind)
}

/// Counting a type depends only on the types of the elements counted.
pub proof fn lemma_kind_count_same(
    a: Seq<DetectedElement>,
    b: Seq<DetectedElement>,
    n: int,
    kind: Seq<char>,
)
    requires
        0 <= n <= a.len(),
        n <= b.len(),
        forall|i: int| 0 <= i < n ==> (#[trigger] a[i]).element.kind() == b[i].element.kind(),
    ensures
        kind_count(a, n, kind) == kind_count(b, n, kind),
    decreases n,
{
    if n > 0 {
        lemma_kind_count_same(a, b, n - 1, kind);
        assert(a[n - 1].element.kind() == b[n - 1].element.kind());
    }
}

/// A count grows with the number of elements counted, by at most one for each.
pub proof fn lemma_kind_count_grows(found: Seq<DetectedElement>, m: int, n: int, kind: Seq<char>)
    requires
        0 <= m <= n <= found.len(),
    ensures
        kind_count(found, m, kind) <= kind_count(found, n, kind) <= kind_count(found, m, kind) + (n
            - m),
    decreases n - m,
{
    if m < n {
        lemma_kind_count_grows(found, m, n - 1, kind);
    }
}

/// Counting in two sequences joined is counting in the first and then in the second.
pub proof fn lemma_kind_count_join(
    a: Seq<DetectedElement>,
    b: Seq<DetectedElement>,
    i: int,
    kind: Seq<char>,
)
    requires
        0 <= i <= b.len(),
    ensures
        kind_count(a + b, a.len() + i, kind) == kind_count(a, a.len() as int, kind) + kind_count(
            b,
            i,
            kind,
        ),
    decreases i,
{
    if i == 0 {
        lemma_kind_count_same(a + b, a, a.len() as int, kind);
    } else {
        lemma_kind_count_join(a, b, i - 1, kind);
        assert((a + b)[a.len() + i - 1] == b[i - 1]);
    }
}

/// The first batches joined do not depend on the batches that follow.
pub proof fn lemma_joined_prefix(
    batches: Seq<Seq<DetectedElement>>,
    more: Seq<Seq<DetectedElement>>,
    n: int,
)
    requires
        0 <= n <= batches.len(),
        batches.len() <= more.len(),
        forall|k: int| 0 <= k < batches.len() ==> #[trigger] more[k] == batches[k],
    ensures
        joined(more, n) == joined(batches, n),
    decreases n,
{
    if n > 0 {
        lemma_joined_prefix(batches, more, n - 1);
        assert(more[n - 1] == batches[n - 1]);
    }
}

/// Where the elements of batch `k` stand among the first `n` batches joined: element `i`
/// of the batch is element `i` after all the elements of the batches before it.
pub proof fn lemma_joined_index(batches: Seq<Seq<DetectedElement>>, n: int, k: int, i: int)
    requires
        0 <= k < n <= batches.len(),
        0 <= i < batches[k].len(),
    ensures
        joined(batches, k).len() + i < joined(batches, n).len(),
        joined(batches, n)[joined(batches, k).len() + i] == batches[k][i],
    decreases n,
{
    if k < n - 1 {
        lemma_joined_index(batches, n - 1, k, i);
    }
}

/// Region claiming: in a run, an element touches no element of an earlier batch. Here
/// the elements are element `j` of batch `b` and element `i` of the earlier batch `a`.
pub proof fn law_region_claiming(
    found: Seq<DetectedElement>,
    batches: Seq<Seq<DetectedElement>>,
    dims: Dimensions,
    a: int,
    i: int,
    b: int,
    j: int,
)
    requires
        is_run(found, batches, dims),
        0 <= a < b < batches.len(),
        0 <= i < batches[a].len(),
        0 <= j < batches[b].len(),
    ensures
        joined(batches, a).len() + i < joined(batches, b).len(),
        joined(batches, b).len() + j < found.len(),
        !found[joined(batches, b).len() + j].bounds.intersects_spec(
            found[joined(batches, a).len() + i].bounds,
        ),
{
    let n = batches.len() as int;
    let flat = joined(batches, n);
    let early = joined(batches, b);
    let p = joined(batches, a).len() + i;
    let q = early.len() + j;
    lemma_joined_index(batches, b, a, i);
    lemma_joined_index(batches, n, a, i);
    lemma_joined_index(batches, n, b, j);
    assert(well_behaved(batches[b], dims, regions_of(early)));
    assert(!claimed(regions_of(early), batches[b][j].bounds));
    assert(regions_of(early)[p] == batches[a][i].bounds);
    assert(renumbered(found[p], flat[p], kind_count(flat, p, flat[p].element.kind()) + 1));
    assert(renumbered(found[q], flat[q], kind_count(flat, q, flat[q].element.kind()) + 1));
}

/// Every element of batches joined belongs to one batch: element `p` is element `i` of
/// some batch `k`, after all the elements of the batches before it.
pub proof fn lemma_joined_owner(batches: Seq<Seq<DetectedElement>>, n: int, p: int) -> (at: (
    int,
    int,
))
    requires
        0 <= n <= batches.len(),
        0 <= p < joined(batches, n).len(),
    ensures
        0 <= at.0 < n,
        0 <= at.1 < batches[at.0].len(),
        p == joined(batches, at.0).len() + at.1,
    decreases n,
{
    if p < joined(batches, n - 1).len() {
        lemma_joined_owner(batches, n - 1, p)
    } else {
        (n - 1, p - joined(batches, n - 1).len())
    }
}

/// Region claiming, for all pairs: where, besides, no detector reports two elements
/// that touch each other, no two elements of a run touch.
pub proof fn law_no_overlap(
    found: Seq<DetectedElement>,
    batches: Seq<Seq<DetectedElement>>,
    dims: Dimensions,
)
    requires
        is_run(found, batches, dims),
        forall|k: int, i: int, j: int|
            0 <= k < batches.len() && 0 <= i < j < batches[k].len() ==> !(
            #[trigger] batches[k][j]).bounds.intersects_spec((#[trigger] batches[k][i]).bounds),
    ensures
        forall|p: int, q: int|
            0 <= p < q < found.len() ==> !(#[trigger] found[q]).bounds.intersects_spec(
                (#[trigger] found[p]).bounds,
            ),
{
    let n = batches.len() as int;
    let flat = joined(batches, n);
    assert forall|p: int, q: int| 0 <= p < q < found.len() implies !(
    #[trigger] found[q]).bounds.intersects_spec((#[trigger] found[p]).bounds) by {
        let (a, i) = lemma_joined_owner(batches, n, p);
        let (b, j) = lemma_joined_owner(batches, n, q);
        lemma_joined_index(batches, n, a, i);
        lemma_joined_index(batches, n, b, j);
        assert(renumbered(found[p], flat[p], kind_count(flat, p, flat[p].element.kind()) + 1));
        assert(renumbered(found[q], flat[q], kind_count(flat, q, flat[q].element.kind()) + 1));
        if a < b {
            law_region_claiming(found, batches, dims, a, i, b, j);
        } else if a == b {
            assert(!batches[a][j].bounds.intersects_spec(batches[a][i].bounds));
        } else {
            lemma_joined_index(batches, a, b, j);
        }
    }
}

/// Unique references: the elements of a run differ pairwise in their references.
pub proof fn law_distinct_references(out: Seq<DetectedElement>, cands: Seq<DetectedElement>)
    requires
        numbered(out, cands),
    ensures
        distinct_ids(out),
{
    assert forall|i: int, j: int| 0 <= i < j < out.len() implies (#[trigger] out[i]).element.id()
        != (#[trigger] out[j]).element.id() by {
        let ki = cands[i].element.kind();
        let kj = cands[j].element.kind();
        let ni = kind_count(cands, i, ki) + 1;
        let nj = kind_count(cands, j, kj) + 1;
        assert(renumbered(out[i], cands[i], ni));
        assert(renumbered(out[j], cands[j], nj));
        if out[i].element.id() == out[j].element.id() {
            lemma_ref_id_injective(ki, ni, kj, nj);
            lemma_kind_count_grows(cands, i + 1, j, ki);
            assert(kind_count(cands, i + 1, ki) == kind_count(cands, i, ki) + 1);
        }
    }
}

/// Bounds validity: the elements of a run lie on the grid, each on the region it claims.
pub proof fn law_run_on_grid(
    found: Seq<DetectedElement>,
    batches: Seq<Seq<DetectedElement>>,
    dims: Dimensions,
)
    requires
        is_run(found, batches, dims),
    ensures
        all_on_grid(found, dims),
{
    let n = batches.len() as int;
    let flat = joined(batches, n);
    lemma_joined_members(batches, n, dims);
    assert forall|i: int| 0 <= i < found.len() implies (#[trigger] found[i]).bounds.fits(dims)
        && found[i].element.region() == found[i].bounds by {
        assert(renumbered(found[i], flat[i], kind_count(flat, i, flat[i].element.kind()) + 1));
    }
}

/// Every element of well-behaved batches joined lies on the grid, on the region it claims.
pub proof fn lemma_joined_members(batches: Seq<Seq<DetectedElement>>, n: int, dims: Dimensions)
    requires
        0 <= n <= batches.len(),
        forall|k: int|
            0 <= k < batches.len() ==> well_behaved(
                #[trigger] batches[k],
                dims,
                regions_of(joined(batches, k)),
            ),
    ensures
        all_on_grid(joined(batches, n), dims),
    decreases n,
{
    if n > 0 {
        lemma_joined_members(batches, n - 1, dims);
        let before = joined(batches, n - 1);
        let last = batches[n - 1];
        assert(well_behaved(last, dims, regions_of(before)));
        assert forall|i: int| 0 <= i < (before + last).len() implies (#[trigger] (before
            + last)[i]).bounds.fits(dims) && (before + last)[i].element.region() == (before
            + last)[i].bounds by {
            if i >= before.len() {
                assert((before + last)[i] == last[i - before.len()]);
            }
        }
    }
}

/// A detector with the name and the priority under which it was added.
struct Entry<T> {
    item: T,
    name: &'static str,
    priority: u32,
}

impl<T> Entry<T> {
    /// The entry that holds `item` under `name` and `priority`.
    fn new(item: T, name: &'static str, priority: u32) -> (e: Self)
        ensures
            e.item == item,
            e.name == name,
            e.priority == priority,
    {
        Entry { item, name, priority }
    }
}

/// Whether `k` is the place of a detector of priority `priority` among detectors of the
/// priorities `p`: after those of the same or a higher priority, before those of a lower
/// one.
pub open spec fn is_place(p: Seq<u32>, priority: u32, k: int) -> bool {
    &&& 0 <= k <= p.len()
    &&& forall|i: int| 0 <= i < k ==> p[i] >= priority
    &&& forall|i: int| k <= i < p.len() ==> p[i] < priority
}

/// Whether `after` holds `item` at the index `k` and, around it, the items of `before`
/// in their order.
pub open spec fn put_in<T>(item: T, k: int, before: Seq<T>, after: Seq<T>) -> bool {
    &&& 0 <= k <= before.len()
    &&& after.len() == before.len() + 1
    &&& after[k] == item
    &&& forall|i: int| 0 <= i < k ==> after[i] == before[i]
    &&& forall|i: int| k <= i < before.len() ==> after[i + 1] == before[i]
}

/// The detectors of a run, highest priority first. The pipeline notes the name and the
/// priority of each detector when it is added.
pub struct DetectionPipeline {
    detectors: Vec<Entry<Arc<dyn ElementDetector>>>,
}

impl DetectionPipeline {
    /// The detectors, in running order.
    pub closed spec fn detectors(&self) -> Seq<Arc<dyn ElementDetector>> {
        Seq::new(self.detectors@.len(), |i: int| self.detectors@[i].item)
    }

    /// The names under which the detectors were added, in running order.
    pub closed spec fn names(&self) -> Seq<Seq<char>> {
        Seq::new(self.detectors@.len(), |i: int| self.detectors@[i].name@)
    }

    /// The priorities under which the detectors were added, in running order.
    pub closed spec fn priorities(&self) -> Seq<u32> {
        Seq::new(self.detectors@.len(), |i: int| self.detectors@[i].priority)
    }

    /// Whether the pipeline is in order: detectors of higher priority stand first.
    pub open spec fn wf(&self) -> bool {
        descending(self.priorities())
    }

    /// There are as many names and priorities as detectors.
    pub proof fn lemma_lengths(&self)
        ensures
            self.names().len() == self.detectors().len(),
            self.priorities().len() == self.detectors().len(),
    {
    }

    /// A pipeline without detectors.
    pub fn new() -> (p: Self)
        ensures
            p.wf(),
            p.detectors().len() == 0,
            p.names().len() == 0,
            p.priorities().len() == 0,
    {
        DetectionPipeline { detectors: Vec::new() }
    }

    /// Adds a detector under the name and the priority that it gives for itself. It takes
    /// its place by priority: after the detectors of the same or a higher priority, before
    /// those of a lower one; the others keep their order.
    pub fn add_detector(&mut self, detector: Arc<dyn ElementDetector>)
        requires
            old(self).wf(),
        ensures
            final(self).wf(),
            exists|k: int, priority: u32|
                {
                    &&& #[trigger] is_place(old(self).priorities(), priority, k)
                    &&& final(self).priorities() == old(self).priorities().insert(k, priority)
                    &&& put_in(detector, k, old(self).detectors(), final(self).detectors())
                    &&& final(self).names().len() == old(self).names().len() + 1
                    &&& forall|i: int| 0 <= i < k ==> final(self).names()[i] == old(self).names()[i]
                    &&& forall|i: int|
                        k <= i < old(self).names().len() ==> final(self).names()[i + 1] == old(
                            self,
                        ).names()[i]
                },
    {
        let name = detector.name();
        let priority = detector.priority();
        let ghost before = old(self).names();
        let entry = Entry::new(detector, name, priority);
        let k = self.place(entry);
        proof {
            assert(is_place(old(self).priorities(), priority, k as int));
            assert(self.names() == before.insert(k as int, name@));
        }
    }

    /// Adds a detector under the given name and priority, and returns the index at which
    /// it stands. It takes its place by priority: after the detectors of the same or a
    /// higher priority, before those of a lower one; the others keep their order.
    pub fn add_with_priority(
        &mut self,
        detector: Arc<dyn ElementDetector>,
        name: &'static str,
        priority: u32,
    ) -> (k: usize)
        requires
            old(self).wf(),
        ensures
            final(self).wf(),
            is_place(old(self).priorities(), priority, k as int),
            final(self).priorities() == old(self).priorities().insert(k as int, priority),
            final(self).names() == old(self).names().insert(k as int, name@),
            put_in(detector, k as int, old(self).detectors(), final(self).detectors()),
    {
        let entry = Entry::new(detector, name, priority);
        self.place(entry)
    }

    /// Puts an entry in its place by priority, and returns the index at which it stands.
    fn place(&mut self, entry: Entry<Arc<dyn ElementDetector>>) -> (k: usize)
        requires
            old(self).wf(),
        ensures
            final(self).wf(),
            is_place(old(self).priorities(), entry.priority, k as int),
            final(self).priorities() == old(self).priorities().insert(k as int, entry.priority),
            final(self).names() == old(self).names().insert(k as int, entry.name@),
            put_in(entry.item, k as int, old(self).detectors(), final(self).detectors()),
    {
        let priority = entry.priority;
        let ghost name = entry.name;
        let ghost detector = entry.item;
        let mut k: usize = 0;
        while k < self.detectors.len() && self.detectors[k].priority >= priority
            invariant
                k <= self.detectors.len(),
                self.detectors@ == old(self).detectors@,
                old(self).wf(),
                forall|i: int| 0 <= i < k ==> self.detectors@[i].priority >= priority,
            decreases self.detectors.len() - k,
        {
            k += 1;
        }
        self.detectors.insert(k, entry);
        proof {
            let before = old(self).priorities();
            let after = self.priorities();
            assert(after =~= before.insert(k as int, priority));
            assert(self.names() =~= old(self).names().insert(k as int, name@));
            assert(after[k as int] == priority);
            assert forall|i: int| k <= i < before.len() implies before[i] < priority by {
                assert(before[k as int] < priority);
                assert(before[k as int] >= before[i] || i == k);
            }
            assert(descending(after)) by {
                assert forall|i: int, j: int| 0 <= i < j < after.len() implies after[i]
                    >= after[j] by {
                    if j < k {
                        assert(after[i] == before[i] && after[j] == before[j]);
                    } else if j == k {
                        assert(after[i] == before[i]);
                    } else if i < k {
                        assert(after[i] == before[i] && after[j] == before[j - 1]);
                        if j - 1 > i {
                            assert(before[i] >= before[j - 1]);
                        }
                    } else if i == k {
                        assert(after[j] == before[j - 1]);
                    } else {
                        assert(after[i] == before[i - 1] && after[j] == before[j - 1]);
                    }
                }
            }
            let held = old(self).detectors();
            let now = self.detectors();
            assert(now[k as int] == detector) by {
                assert(self.detectors@[k as int] == entry);
            }
            assert forall|i: int| 0 <= i < k implies now[i] == held[i] by {
                assert(self.detectors@[i] == old(self).detectors@[i]);
            }
            assert forall|i: int| k <= i < held.len() implies now[i + 1] == held[i] by {
                assert(self.detectors@[i + 1] == old(self).detectors@[i]);
            }
        }
        k
    }

    /// The number of detectors.
    pub fn len(&self) -> (n: usize)
        ensures
            n == self.priorities().len(),
    {
        self.detectors.len()
    }

    /// The names of the detectors, in running order.
    pub fn detector_names(&self) -> (names: Vec<&'static str>)
        ensures
            names@.len() == self.names().len(),
            forall|i: int| 0 <= i < names@.len() ==> (#[trigger] names@[i])@ == self.names()[i],
    {
        let mut names: Vec<&'static str> = Vec::new();
        let mut i: usize = 0;
        while i < self.detectors.len()
            invariant
                i <= self.detectors.len(),
                names@.len() == i,
                forall|j: int| 0 <= j < i ==> (#[trigger] names@[j])@ == self.names()[j],
            decreases self.detectors.len() - i,
        {
            names.push(self.detectors[i].name);
            i += 1;
        }
        names
    }

    /// Runs the detectors in order on `grid`, with the cursor at `cursor`, and returns what
    /// they found, one detector's elements after the other's.
    ///
    /// Each detector that takes part is handed the cursor and, as claimed regions, the
    /// regions of the elements found before it; what it reports is its batch. A detector
    /// that does not take part has an empty batch. Each element receives a fresh
    /// reference: its type name, an underscore and the next number of its type, counted
    /// from one within the run.
    ///
    /// So the result is a run of one batch for each detector. Whatever the detectors are,
    /// every element lies on the grid, and the references are pairwise distinct. A pipeline
    /// without detectors finds nothing.
    pub fn detect(&self, grid: &Grid, cursor: Position) -> (found: Vec<DetectedElement>)
        requires
            grid.wf(),
        ensures
            exists|batches: Seq<Seq<DetectedElement>>|
                batches.len() == self.priorities().len() && #[trigger] is_run(
                    found@,
                    batches,
                    grid@.dimensions,
                ),
            all_on_grid(found@, grid@.dimensions),
            distinct_ids(found@),
            self.priorities().len() == 0 ==> found@.len() == 0,
    {
        let mut context = DetectionContext::new(cursor);
        let mut all: Vec<DetectedElement> = Vec::new();
        let ghost mut batches: Seq<Seq<DetectedElement>> = Seq::empty();
        let ghost dims = grid@.dimensions;
        let mut k: usize = 0;
        proof {
            assert(context.claimed_regions@ =~= regions_of(all@));
        }
        while k < self.detectors.len()
            invariant
                k <= self.detectors.len(),
                grid.wf(),
                dims == grid@.dimensions,
                batches.len() == k,
                is_run(all@, batches, dims),
                follows(context, all@),
                context.cursor == cursor,
                self.detectors@.len() == 0 ==> all@.len() == 0,
            decreases self.detectors.len() - k,
        {
            let ghost flat = joined(batches, k as int);
            let ghost before = all@;
            let ghost earlier = batches;
            if self.detectors[k].item.enabled() {
                proof {
                    lemma_numbered_regions(all@, flat);
                }
                let batch = self.detectors[k].item.detect(grid, &context);
                let ghost reported = batch@;
                take_batch(&mut all, &mut context, batch);
                proof {
                    batches = batches.push(reported);
                    lemma_run_grows(before, all@, earlier, reported, dims);
                }
            } else {
                proof {
                    batches = batches.push(Seq::empty());
                    lemma_run_grows(before, all@, earlier, Seq::empty(), dims);
                }
            }
            k += 1;
        }
        proof {
            law_run_on_grid(all@, batches, dims);
            law_distinct_references(all@, joined(batches, batches.len() as int));
        }
        all
    }
}

/// Numbering keeps the regions.
pub proof fn lemma_numbered_regions(out: Seq<DetectedElement>, cands: Seq<DetectedElement>)
    requires
        numbered(out, cands),
    ensures
        regions_of(out) == regions_of(cands),
{
    assert forall|i: int| 0 <= i < out.len() implies out[i].bounds == cands[i].bounds by {
        assert(renumbered(out[i], cands[i], kind_count(cands, i, cands[i].element.kind()) + 1));
    }
    assert(regions_of(out) =~= regions_of(cands));
}

/// A run grows by a batch: where `before` is a run of `batches`, the batch `reported`
/// keeps off the regions of `before`, and `after` is `before` followed by the batch, each
/// of its elements under the number that follows those of its type, `after` is a run of
/// the batches and `reported`.
pub proof fn lemma_run_grows(
    before: Seq<DetectedElement>,
    after: Seq<DetectedElement>,
    batches: Seq<Seq<DetectedElement>>,
    reported: Seq<DetectedElement>,
    dims: Dimensions,
)
    requires
        is_run(before, batches, dims),
        well_behaved(reported, dims, regions_of(before)),
        extended(before, after, reported),
    ensures
        is_run(after, batches.push(reported), dims),
{
    let n = batches.len() as int;
    let more = batches.push(reported);
    let flat = joined(batches, n);
    let next = joined(more, n + 1);
    lemma_numbered_regions(before, flat);
    lemma_joined_prefix(batches, more, n);
    assert(next == flat + reported);
    assert forall|k: int| 0 <= k < more.len() implies well_behaved(
        #[trigger] more[k],
        dims,
        regions_of(joined(more, k)),
    ) by {
        lemma_joined_prefix(batches, more, k);
        if k < n {
            assert(more[k] == batches[k]);
        }
    }
    assert forall|i: int| 0 <= i < after.len() implies renumbered(
        #[trigger] after[i],
        next[i],
        kind_count(next, i, next[i].element.kind()) + 1,
    ) by {
        if i < before.len() {
            assert(after[i] == before[i]);
            assert(next[i] == flat[i]);
            lemma_kind_count_same(next, flat, i, flat[i].element.kind());
            assert(renumbered(before[i], flat[i], kind_count(flat, i, flat[i].element.kind()) + 1));
        } else {
            let j = i - before.len();
            let kind = reported[j].element.kind();
            assert(next[i] == reported[j]);
            lemma_kind_count_join(flat, reported, j, kind);
            assert forall|m: int| 0 <= m < before.len() implies (#[trigger] before[m]).element.kind()
                == flat[m].element.kind() by {
                assert(renumbered(
                    before[m],
                    flat[m],
                    kind_count(flat, m, flat[m].element.kind()) + 1,
                ));
            }
            lemma_kind_count_same(before, flat, before.len() as int, kind);
        }
    }
}

/// Whether `after` is `before` followed by the elements of `batch` with fresh references:
/// element `i` of the batch under the number that follows those of the elements of its
/// type in `before` and before it in the batch.
pub open spec fn extended(
    before: Seq<DetectedElement>,
    after: Seq<DetectedElement>,
    batch: Seq<DetectedElement>,
) -> bool {
    &&& after.len() == before.len() + batch.len()
    &&& forall|i: int| 0 <= i < before.len() ==> #[trigger] after[i] == before[i]
    &&& forall|i: int|
        0 <= i < batch.len() ==> renumbered(
            #[trigger] after[before.len() + i],
            batch[i],
            kind_count(before, before.len() as int, batch[i].element.kind()) + kind_count(
                batch,
                i,
                batch[i].element.kind(),
            ) + 1,
        )
}

/// Takes one detector's batch into a run: the elements of `batch` are put after those of
/// `all`, in order, each under a fresh reference, and their regions are claimed in
/// `context`. The cursor stays.
pub fn take_batch(
    all: &mut Vec<DetectedElement>,
    context: &mut DetectionContext,
    batch: Vec<DetectedElement>,
)
    requires
        follows(*old(context), old(all)@),
    ensures
        extended(old(all)@, final(all)@, batch@),
        final(context).claimed_regions@ == old(context).claimed_regions@ + regions_of(batch@),
        follows(*final(context), final(all)@),
        final(context).cursor == old(context).cursor,
        final(context).previous_elements == old(context).previous_elements,
{
    let ghost given = batch@;
    let ghost start = all@;
    let ghost claims = context.claimed_regions@;
    let mut batch = batch;
    // The batch is turned over, so that taking from its end takes the elements in the
    // order in which they were reported.
    let mut turned: Vec<DetectedElement> = Vec::new();
    while batch.len() > 0
        invariant
            batch.len() + turned.len() == given.len(),
            forall|j: int| 0 <= j < batch.len() ==> batch@[j] == given[j],
            forall|j: int| 0 <= j < turned.len() ==> turned@[j] == given[given.len() - 1 - j],
        decreases batch.len(),
    {
        match batch.pop() {
            Some(e) => {
                turned.push(e);
            },
            None => {},
        }
    }
    proof {
        assert(context.claimed_regions@ =~= claims + regions_of(given.take(0)));
    }
    while turned.len() > 0
        invariant
            start == old(all)@,
            claims == old(context).claimed_regions@,
            all.len() + turned.len() == start.len() + given.len(),
            start.len() <= all.len(),
            forall|j: int| 0 <= j < turned.len() ==> turned@[j] == given[given.len() - 1 - j],
            forall|i: int| 0 <= i < start.len() ==> #[trigger] all@[i] == start[i],
            forall|i: int|
                0 <= i < all.len() - start.len() ==> renumbered(
                    #[trigger] all@[start.len() + i],
                    given[i],
                    kind_count(start, start.len() as int, given[i].element.kind()) + kind_count(
                        given,
                        i,
                        given[i].element.kind(),
                    ) + 1,
                ),
            context.claimed_regions@ == claims + regions_of(given.take(all.len() - start.len())),
            follows(*context, all@),
            forall|kind: Seq<char>|
                #[trigger] kind_count(all@, all.len() as int, kind) == kind_count(
                    start,
                    start.len() as int,
                    kind,
                ) + kind_count(given, all.len() - start.len(), kind),
            context.cursor == old(context).cursor,
            context.previous_elements == old(context).previous_elements,
        decreases turned.len(),
    {
        let ghost done = all.len() - start.len();
        let ghost held = all@;
        match turned.pop() {
            Some(e) => {
                let ghost cand = e;
                assert(cand == given[done]);
                context.claim_region(e.bounds);
                let DetectedElement { element, bounds, confidence } = e;
                let ghost kind = element.kind();
                proof {
                    lemma_kind_count_grows(held, 0, held.len() as int, kind);
                    assert(context.ref_counter.count(kind) == kind_count(
                        held,
                        held.len() as int,
                        kind,
                    ));
                    assert(context.claimed_regions@.len() == held.len() + 1);
                }
                let claimed_now: usize = context.claimed_regions.len();
                assert(context.ref_counter.count(kind) < claimed_now);
                let id = context.ref_counter.next(element.kind_name());
                let element = element.with_ref_id(id);
                assert(element == cand.element.with_id(id));
                all.push(DetectedElement { element, bounds, confidence });
                proof {
                    let added = all@[held.len() as int];
                    assert(renumbered(
                        added,
                        cand,
                        kind_count(start, start.len() as int, kind) + kind_count(given, done, kind)
                            + 1,
                    ));
                    assert(regions_of(given.take(done + 1)) =~= regions_of(given.take(done)).push(
                        cand.bounds,
                    ));
                    assert(context.claimed_regions@ =~= claims + regions_of(given.take(done + 1)));
                    assert(context.claimed_regions@ =~= regions_of(all@));
                    assert forall|other: Seq<char>| true implies {
                        &&& #[trigger] kind_count(all@, all.len() as int, other) == kind_count(
                            start,
                            start.len() as int,
                            other,
                        ) + kind_count(given, done + 1, other)
                        &&& context.ref_counter.count(other) == kind_count(
                            all@,
                            all.len() as int,
                            other,
                        )
                    } by {
                        lemma_kind_count_same(all@, held, held.len() as int, other);
                        assert(kind_count(held, held.len() as int, other) == kind_count(
                            start,
                            start.len() as int,
                            other,
                        ) + kind_count(given, done, other));
                        assert(added.element.kind() == kind);
                    }
                }
            },
            None => {},
        }
    }
    proof {
        assert(given.take(given.len() as int) =~= given);
    }
}

impl Default for DetectionPipeline {
    /// A pipeline without detectors.
    fn default() -> (p: Self)
        ensures
            p.wf(),
            p.detectors().len() == 0,
            p.names().len() == 0,
            p.priorities().len() == 0,
    {
        DetectionPipeline::new()
    }
}

/// The reference of the element of type `kind` that follows `count` others: its number is
/// `count + 1`.
pub fn make_ref_id(kind: &str, count: usize) -> (id: String)
    ensures
        id@ == ref_id_text(kind@, (count + 1) as nat),
{
    let mut text = to_chars(kind);
    text.push('_');
    let digits = decimal_chars(count as u128 + 1);
    append_chars(&mut text, &digits);
    from_chars(&text)
}


/// Whether `out` is `cand` under the reference of its type and the number `n`: the same
/// region, confidence and content, and nothing changed but the reference.
pub open spec fn renumbered(out: DetectedElement, cand: DetectedElement, n: nat) -> bool {
    &&& out.bounds == cand.bounds
    &&& out.confidence == cand.confidence
    &&& out.element.id() == ref_id_text(cand.element.kind(), n)
    &&& out.element.kind() == cand.element.kind()
    &&& out.element.region() == cand.element.region()
    &&& exists|s: String| out.element == #[trigger] cand.element.with_id(s)
}

/// Gives each element the reference of its place: the `i`-th element receives its type
/// name and the number `i`, counted from one. Everything else stays.
pub fn number_elements(cands: Vec<DetectedElement>) -> (out: Vec<DetectedElement>)
    ensures
        out@.len() == cands@.len(),
        forall|i: int|
            0 <= i < out@.len() ==> renumbered(#[trigger] out@[i], cands@[i], (i + 1) as nat),
{
    let ghost given = cands@;
    let mut cands = cands;
    let mut rev: Vec<DetectedElement> = Vec::new();
    while cands.len() > 0
        invariant
            cands.len() + rev.len() == given.len(),
            forall|j: int| 0 <= j < cands.len() ==> cands@[j] == given[j],
            forall|j: int| 0 <= j < rev.len() ==> rev@[j] == given[given.len() - 1 - j],
        decreases cands.len(),
    {
        match cands.pop() {
            Some(e) => {
                rev.push(e);
            },
            None => {},
        }
    }
    let mut out: Vec<DetectedElement> = Vec::new();
    while rev.len() > 0
        invariant
            out.len() + rev.len() == given.len(),
            forall|j: int| 0 <= j < rev.len() ==> rev@[j] == given[given.len() - 1 - j],
            forall|i: int|
                0 <= i < out@.len() ==> renumbered(
                    #[trigger] out@[i],
                    given[i],
                    (i + 1) as nat,
                ),
        decreases rev.len(),
    {
        match rev.pop() {
            Some(e) => {
                let ghost cand = e;
                assert(cand == given[out.len() as int]);
                let DetectedElement { element, bounds, confidence } = e;
                let id = make_ref_id(element.kind_name(), out.len());
                let element = element.with_ref_id(id);
                assert(element == cand.element.with_id(id));
                out.push(DetectedElement { element, bounds, confidence });
            },
            None => {},
        }
    }
    out
}

/// Whether every element lies on a grid of size `dims`, stands on the region it claims
/// and touches no claimed region, as the numbered elements do where the candidates did.
pub proof fn lemma_renumbered_well_behaved(
    out: Seq<DetectedElement>,
    cands: Seq<DetectedElement>,
    dims: Dimensions,
    claims: Seq<Bounds>,
)
    requires
        well_behaved(cands, dims, claims),
        out.len() == cands.len(),
        forall|i: int| 0 <= i < out.len() ==> renumbered(#[trigger] out[i], cands[i], (i + 1) as nat),
    ensures
        well_behaved(out, dims, claims),
{
    assert forall|i: int| 0 <= i < out.len() implies {
        &&& (#[trigger] out[i]).bounds.fits(dims)
        &&& out[i].element.region() == out[i].bounds
        &&& !claimed(claims, out[i].bounds)
    } by {
        assert(renumbered(out[i], cands[i], (i + 1) as nat));
        assert(cands[i].bounds.fits(dims));
    }
}

} // verus!
