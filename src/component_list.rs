//! An ordered list of sky-model components and the vetoes that prune it.
use vstd::prelude::*;

use crate::components::{LmOffset, SourceComponent};
use crate::flux_density::FluxDensityType;
use crate::source_list::{map_pop, source_entries, Source, SourceList};

verus! {

/// The pairs `(a[k], b[k])` for every index of `a`.
pub open spec fn paired<A, B>(a: Seq<A>, b: Seq<B>) -> Seq<(A, B)> {
    Seq::new(a.len(), |k: int| (a[k], b[k]))
}

/// The elements of `s` whose entry in `mask` is set, in their order.
pub open spec fn select<A>(s: Seq<A>, mask: Seq<bool>) -> Seq<A>
    decreases s.len(),
{
    if s.len() == 0 {
        s
    } else {
        let rest = select(s.drop_last(), mask);
        if mask[s.len() - 1] {
            rest.push(s.last())
        } else {
            rest
        }
    }
}

/// Selecting by a mask that records a predicate is filtering by it.
proof fn lemma_select_is_filter<A>(s: Seq<A>, mask: Seq<bool>, pred: spec_fn(A) -> bool)
    requires
        mask.len() >= s.len(),
        forall|k: int| 0 <= k < s.len() ==> mask[k] == pred(#[trigger] s[k]),
    ensures
        select(s, mask) == s.filter(pred),
    decreases s.len(),
{
    reveal(Seq::filter);
    if s.len() > 0 {
        let d = s.drop_last();
        assert forall|k: int| 0 <= k < d.len() implies mask[k] == pred(#[trigger] d[k]) by {
            assert(d[k] == s[k]);
        }
        lemma_select_is_filter(d, mask, pred);
    }
}

/// Filtering twice by one predicate filters once.
proof fn lemma_filter_twice<A>(s: Seq<A>, pred: spec_fn(A) -> bool)
    ensures
        s.filter(pred).filter(pred) == s.filter(pred),
    decreases s.len(),
{
    reveal(Seq::filter);
    if s.len() > 0 {
        let sub = s.drop_last().filter(pred);
        lemma_filter_twice(s.drop_last(), pred);
        if pred(s.last()) {
            sub.lemma_filter_push(s.last(), pred);
        }
    }
}

/// A weaker predicate keeps at least as many elements.
proof fn lemma_filter_len_weaker<A>(s: Seq<A>, p: spec_fn(A) -> bool, q: spec_fn(A) -> bool)
    requires
        forall|x: A| #[trigger] p(x) ==> q(x),
    ensures
        s.filter(p).len() <= s.filter(q).len(),
    decreases s.len(),
{
    reveal(Seq::filter);
    if s.len() > 0 {
        lemma_filter_len_weaker(s.drop_last(), p, q);
    }
}

proof fn lemma_square_bound_i64(x: i64)
    ensures
        0 <= x * x <= 0x4000_0000_0000_0000_0000_0000_0000_0000,
{
    assert(0 <= x * x <= 0x4000_0000_0000_0000_0000_0000_0000_0000) by (nonlinear_arith)
        requires
            -0x8000_0000_0000_0000 <= x <= 0x7fff_ffff_ffff_ffff,
    ;
}

/// `v` in reverse order.
pub(crate) fn reversed<T>(v: Vec<T>) -> (r: Vec<T>)
    ensures
        r@.len() == v@.len(),
        forall|k: int| 0 <= k < v@.len() ==> #[trigger] r@[k] == v@[v@.len() - 1 - k],
{
    let mut v = v;
    let ghost orig = v@;
    let mut r: Vec<T> = Vec::new();
    while v.len() > 0
        invariant
            v@ == orig.take(v@.len() as int),
            v@.len() <= orig.len(),
            r@.len() == orig.len() - v@.len(),
            forall|k: int| 0 <= k < r@.len() ==> #[trigger] r@[k] == orig[orig.len() - 1 - k],
        decreases v@.len(),
    {
        let x = v.pop().unwrap();
        r.push(x);
    }
    r
}

/// Keeps the pairs of `a` and `b` whose entry in `mask` is set.
fn retain_by_mask<A, B>(a: &mut Vec<A>, b: &mut Vec<B>, mask: &Vec<bool>)
    requires
        old(a)@.len() == old(b)@.len(),
        old(a)@.len() == mask@.len(),
    ensures
        final(a)@.len() == final(b)@.len(),
        paired(final(a)@, final(b)@) == select(paired(old(a)@, old(b)@), mask@),
{
    let ghost oa = a@;
    let ghost ob = b@;
    let ghost whole = paired(oa, ob);
    let mut ta: Vec<A> = Vec::new();
    let mut tb: Vec<B> = Vec::new();
    std::mem::swap(a, &mut ta);
    std::mem::swap(b, &mut tb);
    let mut ra = reversed(ta);
    let mut rb = reversed(tb);
    let n = mask.len();
    let mut i: usize = 0;
    while i < n
        invariant
            n == mask@.len(),
            n == oa.len(),
            n == ob.len(),
            whole == paired(oa, ob),
            i <= n,
            ra@.len() == n - i,
            rb@.len() == n - i,
            forall|k: int| 0 <= k < n - i ==> #[trigger] ra@[k] == oa[n - 1 - k],
            forall|k: int| 0 <= k < n - i ==> #[trigger] rb@[k] == ob[n - 1 - k],
            a@.len() == b@.len(),
            paired(a@, b@) == select(whole.take(i as int), mask@),
        decreases n - i,
    {
        let ghost before = paired(a@, b@);
        assert(ra@[n - 1 - i] == oa[i as int]);
        assert(rb@[n - 1 - i] == ob[i as int]);
        let x = ra.pop().unwrap();
        let y = rb.pop().unwrap();
        assert(whole.take(i + 1).drop_last() =~= whole.take(i as int));
        if mask[i] {
            a.push(x);
            b.push(y);
            assert(paired(a@, b@) =~= before.push((x, y)));
        }
        i = i + 1;
    }
    assert(whole.take(n as int) =~= whole);
}

/// What the flux veto keeps: a component whose model is not a list and whose
/// estimated Stokes I exceeds the noise threshold.
pub open spec fn passes_flux(p: (SourceComponent, i64), noise: i64) -> bool {
    !(p.0.flux_type is List) && p.1 > noise
}

/// The flux veto on components paired with their estimated Stokes I.
pub open spec fn flux_veto(s: Seq<(SourceComponent, i64)>, noise: i64) -> Seq<(SourceComponent, i64)> {
    s.filter(|p: (SourceComponent, i64)| passes_flux(p, noise))
}

/// What the field-of-view veto keeps: a component whose offset from the
/// phase centre, `sqrt(l^2 + m^2)`, lies below the radius.
pub open spec fn passes_fov(p: (SourceComponent, LmOffset), radius: u64) -> bool {
    p.1.l * p.1.l + p.1.m * p.1.m < radius * radius
}

/// The field-of-view veto on components paired with their offsets.
pub open spec fn fov_veto(s: Seq<(SourceComponent, LmOffset)>, radius: u64) -> Seq<(SourceComponent, LmOffset)> {
    s.filter(|p: (SourceComponent, LmOffset)| passes_fov(p, radius))
}

/// The components of the sources from the last source to the first, each
/// source's components in their own order. Catalogues list bright sources
/// first, so sums over this order add the dimmest first.
pub open spec fn components_last_source_first(e: Seq<(Seq<char>, Source)>) -> Seq<SourceComponent>
    decreases e.len(),
{
    if e.len() == 0 {
        Seq::empty()
    } else {
        e.last().1.components@ + components_last_source_first(e.drop_last())
    }
}

/// Why a pruned component list cannot be used.
#[derive(Clone, Copy, Debug, PartialEq, Eq, Structural)]
pub enum VetoError {
    /// No component survived the vetoes.
    NoSourcesAfterVeto,
    /// More components were asked for than survived.
    VetoTooFewSources { requested: usize, available: usize },
}

/// An ordered list of sky-model components.
#[derive(Clone, Debug)]
pub struct ComponentList(pub Vec<SourceComponent>);

impl View for ComponentList {
    type V = Seq<SourceComponent>;

    open spec fn view(&self) -> Seq<SourceComponent> {
        self.0@
    }
}

impl ComponentList {
    /// The components of a source list, last source first.
    pub fn new(source_list: SourceList) -> (r: ComponentList)
        ensures
            r@ == components_last_source_first(source_list.entries()),
    {
        let ghost target = components_last_source_first(source_list.entries());
        let mut map = source_list.0;
        let mut out: Vec<SourceComponent> = Vec::new();
        loop
            invariant
                out@ + components_last_source_first(source_entries(map)) == target,
            ensures
                out@ == target,
            decreases source_entries(map).len(),
        {
            let ghost before = source_entries(map);
            match map_pop(&mut map) {
                None => {
                    assert(out@ + Seq::<SourceComponent>::empty() =~= out@);
                    break ;
                },
                Some((_, src)) => {
                    let mut comps = src.components;
                    assert(out@ + comps@ + components_last_source_first(source_entries(map)) =~= out@
                        + components_last_source_first(before));
                    out.append(&mut comps);
                },
            }
        }
        ComponentList(out)
    }

    /// The components at `start..end`. An empty list, or a range that ends
    /// past the list, is refused.
    pub fn slice_to_struct(self, start: usize, end: usize) -> (r: Result<ComponentList, VetoError>)
        requires
            start <= end,
        ensures
            self@.len() == 0 ==> r == Err::<ComponentList, VetoError>(VetoError::NoSourcesAfterVeto),
            self@.len() > 0 && end > self@.len() ==> r == Err::<ComponentList, VetoError>(
                VetoError::VetoTooFewSources { requested: end, available: self@.len() as usize },
            ),
            self@.len() > 0 && end <= self@.len() ==> r is Ok && r->Ok_0@ == self@.subrange(
                start as int,
                end as int,
            ),
    {
        let n = self.0.len();
        if n == 0 {
            return Err(VetoError::NoSourcesAfterVeto);
        }
        if end > n {
            return Err(VetoError::VetoTooFewSources { requested: end, available: n });
        }
        let mut v = self.0;
        v.truncate(end);
        let tail = v.split_off(start);
        Ok(ComponentList(tail))
    }

    pub fn len(&self) -> (r: usize)
        ensures
            r == self@.len(),
    {
        self.0.len()
    }

    /// Keeps the components that pass the flux veto at threshold `noise`
    /// (microjansky), given the estimated Stokes I of each; `brightness`
    /// keeps the values of the survivors. Reports when none survives.
    pub fn veto_by_flux(&mut self, brightness: &mut Vec<i64>, noise: i64) -> (r: Result<(), VetoError>)
        requires
            old(self)@.len() == old(brightness)@.len(),
        ensures
            final(self)@.len() == final(brightness)@.len(),
            paired(final(self)@, final(brightness)@) == flux_veto(
                paired(old(self)@, old(brightness)@),
                noise,
            ),
            r == if final(self)@.len() == 0 {
                Err::<(), VetoError>(VetoError::NoSourcesAfterVeto)
            } else {
                Ok(())
            },
    {
        let n = self.0.len();
        let mut mask: Vec<bool> = Vec::new();
        let mut k: usize = 0;
        while k < n
            invariant
                n == self@.len(),
                n == brightness@.len(),
                k <= n,
                mask@.len() == k,
                forall|j: int| 0 <= j < k ==> #[trigger] mask@[j] == passes_flux(
                    (self@[j], brightness@[j]),
                    noise,
                ),
            decreases n - k,
        {
            let keep = match self.0[k].flux_type {
                FluxDensityType::List(_) => false,
                _ => brightness[k] > noise,
            };
            mask.push(keep);
            k = k + 1;
        }
        proof {
            let whole = paired(self@, brightness@);
            lemma_select_is_filter(
                whole,
                mask@,
                |p: (SourceComponent, i64)| passes_flux(p, noise),
            );
        }
        retain_by_mask(&mut self.0, brightness, &mask);
        if self.0.len() == 0 {
            Err(VetoError::NoSourcesAfterVeto)
        } else {
            Ok(())
        }
    }

    /// Keeps the components whose offset from the phase centre lies within
    /// `radius` (billionths of a direction cosine), given the offset of each;
    /// `offsets` keeps the values of the survivors. Reports when none
    /// survives.
    pub fn veto_by_fov(&mut self, offsets: &mut Vec<LmOffset>, radius: u64) -> (r: Result<(), VetoError>)
        requires
            old(self)@.len() == old(offsets)@.len(),
        ensures
            final(self)@.len() == final(offsets)@.len(),
            paired(final(self)@, final(offsets)@) == fov_veto(
                paired(old(self)@, old(offsets)@),
                radius,
            ),
            r == if final(self)@.len() == 0 {
                Err::<(), VetoError>(VetoError::NoSourcesAfterVeto)
            } else {
                Ok(())
            },
    {
        let n = self.0.len();
        let mut mask: Vec<bool> = Vec::new();
        let mut k: usize = 0;
        while k < n
            invariant
                n == self@.len(),
                n == offsets@.len(),
                k <= n,
                mask@.len() == k,
                forall|j: int| 0 <= j < k ==> #[trigger] mask@[j] == passes_fov(
                    (self@[j], offsets@[j]),
                    radius,
                ),
            decreases n - k,
        {
            let o = offsets[k];
            let l = o.l as i128;
            let m = o.m as i128;
            let r = radius as u128;
            proof {
                lemma_square_bound_i64(o.l);
                lemma_square_bound_i64(o.m);
                assert(r * r <= u64::MAX as int * u64::MAX as int) by (nonlinear_arith)
                    requires
                        r <= u64::MAX,
                ;
            }
            let dist2: u128 = (l * l) as u128 + (m * m) as u128;
            let r2: u128 = r * r;
            mask.push(dist2 < r2);
            k = k + 1;
        }
        proof {
            let whole = paired(self@, offsets@);
            lemma_select_is_filter(
                whole,
                mask@,
                |p: (SourceComponent, LmOffset)| passes_fov(p, radius),
            );
        }
        retain_by_mask(&mut self.0, offsets, &mask);
        if self.0.len() == 0 {
            Err(VetoError::NoSourcesAfterVeto)
        } else {
            Ok(())
        }
    }
}

/// Applying the flux veto a second time with the same threshold changes
/// nothing.
pub proof fn lemma_flux_veto_idempotent(s: Seq<(SourceComponent, i64)>, noise: i64)
    ensures
        flux_veto(flux_veto(s, noise), noise) == flux_veto(s, noise),
{
    lemma_filter_twice(s, |p: (SourceComponent, i64)| passes_flux(p, noise));
}

/// Raising the noise threshold never lets more components through the flux
/// veto.
pub proof fn lemma_flux_veto_monotone(s: Seq<(SourceComponent, i64)>, low: i64, high: i64)
    requires
        low <= high,
    ensures
        flux_veto(s, high).len() <= flux_veto(s, low).len(),
{
    lemma_filter_len_weaker(
        s,
        |p: (SourceComponent, i64)| passes_flux(p, high),
        |p: (SourceComponent, i64)| passes_flux(p, low),
    );
}

/// Shrinking the field-of-view radius never lets more components through
/// the field-of-view veto.
pub proof fn lemma_fov_veto_monotone(s: Seq<(SourceComponent, LmOffset)>, small: u64, large: u64)
    requires
        small <= large,
    ensures
        fov_veto(s, small).len() <= fov_veto(s, large).len(),
{
    assert((small as int) * (small as int) <= (large as int) * (large as int)) by (nonlinear_arith)
        requires
            small <= large,
    ;
    lemma_filter_len_weaker(
        s,
        |p: (SourceComponent, LmOffset)| passes_fov(p, small),
        |p: (SourceComponent, LmOffset)| passes_fov(p, large),
    );
}

} // verus!
