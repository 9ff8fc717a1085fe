use vstd::prelude::*;
use crate::error::{Error, ValidationError};
use crate::{FitType, IconType, ResamplingFilter, Size};

verus! {

/// One binding: a target size, the source that supplies it, and the
/// policies used to scale it. `pos` is the index of the size token in the
/// token stream, kept for diagnostics.
#[derive(Clone, Debug)]
pub struct Entry {
    pub size: Size,
    pub pos: usize,
    pub path: String,
    pub filter: ResamplingFilter,
    pub fit: FitType,
}

/// Mathematical image of an `Entry`: the path is seen as its characters.
pub struct EntryV {
    pub size: Size,
    pub pos: usize,
    pub path: Seq<char>,
    pub filter: ResamplingFilter,
    pub fit: FitType,
}

impl View for Entry {
    type V = EntryV;

    open spec fn view(&self) -> EntryV {
        EntryV {
            size: self.size,
            pos: self.pos,
            path: self.path@,
            filter: self.filter,
            fit: self.fit,
        }
    }
}

pub open spec fn views_of(entries: Seq<Entry>) -> Seq<EntryV> {
    entries.map_values(|e: Entry| e@)
}

/// No two bindings claim the same target size: the central invariant of a
/// build plan, since a container has exactly one slot per size.
pub open spec fn plan_wf(plan: Seq<EntryV>) -> bool {
    forall|i: int, j: int|
        #![trigger plan[i].size, plan[j].size]
        0 <= i < j < plan.len() ==> plan[i].size != plan[j].size
}

/// The validated, deduplicated set of bindings for one invocation, in
/// first-seen order of the original entries.
#[derive(Debug)]
pub struct BuildPlan {
    pub entries: Vec<Entry>,
}

impl View for BuildPlan {
    type V = Seq<EntryV>;

    open spec fn view(&self) -> Seq<EntryV> {
        views_of(self.entries@)
    }
}

impl BuildPlan {
    pub open spec fn wf(self) -> bool {
        plan_wf(self@)
    }

    /// How many bindings the plan holds.
    pub fn len(&self) -> (n: usize)
        ensures
            n == self@.len(),
    {
        self.entries.len()
    }
}

/// First index in `plan` at or after `i` holding `size`, or the length
/// when no binding holds it.
pub open spec fn find_size(plan: Seq<EntryV>, size: Size, i: int) -> int
    decreases plan.len() - i,
{
    if i < 0 || i >= plan.len() {
        plan.len() as int
    } else if plan[i].size == size {
        i
    } else {
        find_size(plan, size, i + 1)
    }
}

/// Uniqueness pass: bind each entry's size in scan order; a size met twice
/// stops the scan, naming the first binding's position and the current one.
pub open spec fn dedup_entries(entries: Seq<EntryV>, i: int, plan: Seq<EntryV>) -> Result<
    Seq<EntryV>,
    Error,
>
    decreases entries.len() - i,
{
    if i < 0 || i >= entries.len() {
        Ok(plan)
    } else {
        let k = find_size(plan, entries[i].size, 0);
        if k < plan.len() {
            Err(
                Error::Validation(
                    ValidationError::DuplicateSize(entries[i].size, plan[k].pos, entries[i].pos),
                ),
            )
        } else {
            dedup_entries(entries, i + 1, plan.push(entries[i]))
        }
    }
}

/// Whether a container kind accepts one target size.
pub open spec fn spec_size_ok(kind: IconType, s: Size) -> bool {
    match kind {
        IconType::Ico => s.w == s.h && 1 <= s.w && s.w <= 256,
        IconType::Icns => s.w == s.h && (s.w == 16 || s.w == 32 || s.w == 64 || s.w == 128
            || s.w == 256 || s.w == 512 || s.w == 1024),
        IconType::PngSequence => s.w >= 1 && s.h >= 1,
    }
}

/// Constraint pass: the first bound size the container refuses, in
/// first-seen order, fails the plan.
pub open spec fn check_sizes(plan: Seq<EntryV>, kind: IconType, i: int) -> Result<(), Error>
    decreases plan.len() - i,
{
    if i < 0 || i >= plan.len() {
        Ok(())
    } else if !spec_size_ok(kind, plan[i].size) {
        Err(
            Error::Validation(
                ValidationError::UnsupportedSizeForContainer(plan[i].size, kind),
            ),
        )
    } else {
        check_sizes(plan, kind, i + 1)
    }
}

/// What validation returns: the deduplicated plan, or the first fault in
/// scan order, duplicates before container violations.
pub open spec fn validate_spec(entries: Seq<EntryV>, kind: IconType) -> Result<Seq<EntryV>, Error> {
    match dedup_entries(entries, 0, Seq::empty()) {
        Ok(plan) => match check_sizes(plan, kind, 0) {
            Ok(u) => Ok(plan),
            Err(e) => Err(e),
        },
        Err(e) => Err(e),
    }
}

/// Field-wise copy of an entry; the copy equals the original.
pub fn clone_entry(e: &Entry) -> (r: Entry)
    ensures
        r == *e,
{
    Entry {
        size: e.size,
        pos: e.pos,
        path: e.path.clone(),
        filter: e.filter,
        fit: e.fit,
    }
}

/// Whether a container kind accepts one target size.
pub fn size_ok(kind: IconType, s: Size) -> (r: bool)
    ensures
        r == spec_size_ok(kind, s),
{
    match kind {
        IconType::Ico => s.w == s.h && 1 <= s.w && s.w <= 256,
        IconType::Icns => s.w == s.h && (s.w == 16 || s.w == 32 || s.w == 64 || s.w == 128
            || s.w == 256 || s.w == 512 || s.w == 1024),
        IconType::PngSequence => s.w >= 1 && s.h >= 1,
    }
}

/// First binding in `plan` with this size, or the length when none.
fn find_size_in(plan: &Vec<Entry>, size: Size) -> (k: usize)
    ensures
        k == find_size(views_of(plan@), size, 0),
        k <= plan@.len(),
{
    let ghost pv = views_of(plan@);
    let mut i: usize = 0;
    while i < plan.len()
        invariant
            i <= plan@.len(),
            pv == views_of(plan@),
            pv.len() == plan@.len(),
            find_size(pv, size, 0) == find_size(pv, size, i as int),
        decreases plan@.len() - i,
    {
        if plan[i].size == size {
            proof {
                assert(pv[i as int] == plan@[i as int]@);
                assert(find_size(pv, size, i as int) == i);
            }
            return i;
        }
        proof {
            assert(pv[i as int] == plan@[i as int]@);
            assert(find_size(pv, size, i as int) == find_size(pv, size, i as int + 1));
        }
        i += 1;
    }
    plan.len()
}

/// Builds the plan from parsed entries: the uniqueness pass in scan order,
/// then the container-constraint pass over the bound sizes. Succeeds if
/// and only if no size is bound twice and every size fits the container,
/// and then returns the bindings in first-seen order.
pub fn validate(entries: &Vec<Entry>, icon_type: IconType) -> (r: Result<BuildPlan, Error>)
    ensures
        match validate_spec(views_of(entries@), icon_type) {
            Ok(p) => r matches Ok(bp) && bp@ == p && bp.wf(),
            Err(e) => r matches Err(e2) && e2 == e,
        },
{
    let ghost ev = views_of(entries@);
    let mut plan: Vec<Entry> = Vec::new();
    proof {
        assert(views_of(plan@) =~= Seq::<EntryV>::empty());
    }
    let mut i: usize = 0;
    while i < entries.len()
        invariant
            i <= entries@.len(),
            ev == views_of(entries@),
            ev.len() == entries@.len(),
            dedup_entries(ev, 0, Seq::empty()) == dedup_entries(ev, i as int, views_of(plan@)),
            plan_wf(views_of(plan@)),
        decreases entries@.len() - i,
    {
        let e = &entries[i];
        let ghost pv = views_of(plan@);
        let k = find_size_in(&plan, e.size);
        proof {
            assert(ev[i as int] == entries@[i as int]@);
        }
        if k < plan.len() {
            proof {
                assert(pv[k as int] == plan@[k as int]@);
                assert(dedup_entries(ev, i as int, pv) == Err::<Seq<EntryV>, Error>(
                    Error::Validation(
                        ValidationError::DuplicateSize(
                            ev[i as int].size,
                            pv[k as int].pos,
                            ev[i as int].pos,
                        ),
                    ),
                ));
            }
            return Err(
                Error::Validation(ValidationError::DuplicateSize(e.size, plan[k].pos, e.pos)),
            );
        }
        plan.push(clone_entry(e));
        proof {
            assert(views_of(plan@) =~= pv.push(ev[i as int]));
            assert forall|a: int, b: int|
                #![trigger views_of(plan@)[a].size, views_of(plan@)[b].size]
                0 <= a < b < views_of(plan@).len() implies views_of(plan@)[a].size
                != views_of(plan@)[b].size by {
                if b < pv.len() {
                } else {
                    assert(views_of(plan@)[b] == ev[i as int]);
                    assert(find_size(pv, ev[i as int].size, 0) == pv.len());
                    lemma_find_size_none(pv, ev[i as int].size, a);
                }
            }
        }
        i += 1;
    }
    proof {
        assert(dedup_entries(ev, i as int, views_of(plan@)) == Ok::<Seq<EntryV>, Error>(
            views_of(plan@),
        ));
    }
    let ghost pv = views_of(plan@);
    let mut j: usize = 0;
    while j < plan.len()
        invariant
            j <= plan@.len(),
            ev == views_of(entries@),
            pv == views_of(plan@),
            pv.len() == plan@.len(),
            dedup_entries(ev, 0, Seq::empty()) == Ok::<Seq<EntryV>, Error>(pv),
            plan_wf(pv),
            check_sizes(pv, icon_type, 0) == check_sizes(pv, icon_type, j as int),
        decreases plan@.len() - j,
    {
        proof {
            assert(pv[j as int] == plan@[j as int]@);
        }
        if !size_ok(icon_type, plan[j].size) {
            proof {
                assert(check_sizes(pv, icon_type, j as int) == Err::<(), Error>(
                    Error::Validation(
                        ValidationError::UnsupportedSizeForContainer(pv[j as int].size, icon_type),
                    ),
                ));
            }
            return Err(
                Error::Validation(
                    ValidationError::UnsupportedSizeForContainer(plan[j].size, icon_type),
                ),
            );
        }
        j += 1;
    }
    proof {
        assert(check_sizes(pv, icon_type, j as int) == Ok::<(), Error>(()));
    }
    Ok(BuildPlan { entries: plan })
}

/// If a scan finds no binding with this size, then in particular the
/// binding at `a` does not hold it.
proof fn lemma_find_size_none(plan: Seq<EntryV>, size: Size, a: int)
    requires
        0 <= a < plan.len(),
        find_size(plan, size, 0) == plan.len(),
    ensures
        plan[a].size != size,
{
    lemma_find_size_none_from(plan, size, 0, a);
}

proof fn lemma_find_size_none_from(plan: Seq<EntryV>, size: Size, i: int, a: int)
    requires
        0 <= i <= a < plan.len(),
        find_size(plan, size, i) == plan.len(),
    ensures
        plan[a].size != size,
    decreases a - i,
{
    if plan[i].size == size {
        assert(find_size(plan, size, i) == i);
    } else if i < a {
        lemma_find_size_none_from(plan, size, i + 1, a);
    }
}

/// The scan finds a binding exactly when one holds the size, and then the
/// found binding holds it.
proof fn lemma_find_size_exists(plan: Seq<EntryV>, size: Size, i: int)
    requires
        0 <= i <= plan.len(),
    ensures
        i <= find_size(plan, size, i) <= plan.len(),
        find_size(plan, size, i) < plan.len() <==> exists|a: int|
            i <= a < plan.len() && #[trigger] plan[a].size == size,
        find_size(plan, size, i) < plan.len() ==> plan[find_size(plan, size, i)].size == size,
    decreases plan.len() - i,
{
    if i < plan.len() {
        if plan[i].size == size {
        } else {
            lemma_find_size_exists(plan, size, i + 1);
        }
    }
}

/// When no binding in `plan` holds `size` from `i` on, the scan reports
/// the length.
proof fn lemma_find_size_all_ne(plan: Seq<EntryV>, size: Size, i: int)
    requires
        0 <= i <= plan.len(),
        forall|a: int| i <= a < plan.len() ==> #[trigger] plan[a].size != size,
    ensures
        find_size(plan, size, i) == plan.len(),
    decreases plan.len() - i,
{
    if i < plan.len() {
        lemma_find_size_all_ne(plan, size, i + 1);
    }
}

proof fn lemma_dedup_distinct(entries: Seq<EntryV>, i: int)
    requires
        0 <= i <= entries.len(),
        forall|a: int, b: int|
            #![trigger entries[a].size, entries[b].size]
            0 <= a < b < entries.len() ==> entries[a].size != entries[b].size,
    ensures
        dedup_entries(entries, i, entries.take(i)) == Ok::<Seq<EntryV>, Error>(entries),
    decreases entries.len() - i,
{
    if i >= entries.len() {
        assert(entries.take(i) =~= entries);
    } else {
        let plan = entries.take(i);
        assert forall|a: int| 0 <= a < plan.len() implies #[trigger] plan[a].size
            != entries[i].size by {
            assert(plan[a] == entries[a]);
        }
        lemma_find_size_all_ne(plan, entries[i].size, 0);
        assert(plan.push(entries[i]) =~= entries.take(i + 1));
        lemma_dedup_distinct(entries, i + 1);
    }
}

proof fn lemma_check_sizes_ok(plan: Seq<EntryV>, kind: IconType, i: int)
    requires
        0 <= i <= plan.len(),
        forall|a: int| 0 <= a < plan.len() ==> spec_size_ok(kind, #[trigger] plan[a].size),
    ensures
        check_sizes(plan, kind, i) == Ok::<(), Error>(()),
    decreases plan.len() - i,
{
    if i < plan.len() {
        lemma_check_sizes_ok(plan, kind, i + 1);
    }
}

/// Entry sets with pairwise-distinct target sizes that the container
/// accepts always validate, and the resulting plan binds exactly the given
/// entries, one binding per size, in original first-seen order.
pub proof fn lemma_distinct_entries_validate(entries: Seq<EntryV>, kind: IconType)
    requires
        forall|a: int, b: int|
            #![trigger entries[a].size, entries[b].size]
            0 <= a < b < entries.len() ==> entries[a].size != entries[b].size,
        forall|a: int| 0 <= a < entries.len() ==> spec_size_ok(kind, #[trigger] entries[a].size),
    ensures
        validate_spec(entries, kind) == Ok::<Seq<EntryV>, Error>(entries),
{
    assert(entries.take(0) =~= Seq::<EntryV>::empty());
    lemma_dedup_distinct(entries, 0);
    lemma_check_sizes_ok(entries, kind, 0);
}

proof fn lemma_check_sizes_fails(plan: Seq<EntryV>, kind: IconType, i: int)
    requires
        0 <= i <= plan.len(),
        exists|j: int| i <= j < plan.len() && !spec_size_ok(kind, #[trigger] plan[j].size),
    ensures
        exists|j: int|
            i <= j < plan.len() && !spec_size_ok(kind, #[trigger] plan[j].size) && check_sizes(
                plan,
                kind,
                i,
            ) == Err::<(), Error>(
                Error::Validation(
                    ValidationError::UnsupportedSizeForContainer(plan[j].size, kind),
                ),
            ),
    decreases plan.len() - i,
{
    if !spec_size_ok(kind, plan[i].size) {
    } else {
        let j0 = choose|j: int| i <= j < plan.len() && !spec_size_ok(kind, #[trigger] plan[j].size);
        assert(i + 1 <= j0 < plan.len() && !spec_size_ok(kind, plan[j0].size));
        lemma_check_sizes_fails(plan, kind, i + 1);
    }
}

/// A bound size that the container refuses fails validation with an
/// unsupported-size error naming an offending size and the container: for
/// the windows container any non-square size, any zero and anything above
/// its hard limit of 256; for the apple container anything outside its
/// fixed set of square sizes; for a plain sequence only a zero dimension.
pub proof fn lemma_unsupported_size_fails(entries: Seq<EntryV>, kind: IconType, a: int)
    requires
        forall|i: int, j: int|
            #![trigger entries[i].size, entries[j].size]
            0 <= i < j < entries.len() ==> entries[i].size != entries[j].size,
        0 <= a < entries.len(),
        !spec_size_ok(kind, entries[a].size),
    ensures
        exists|j: int|
            0 <= j < entries.len() && !spec_size_ok(kind, #[trigger] entries[j].size)
                && validate_spec(entries, kind) == Err::<Seq<EntryV>, Error>(
                Error::Validation(
                    ValidationError::UnsupportedSizeForContainer(entries[j].size, kind),
                ),
            ),
{
    assert(entries.take(0) =~= Seq::<EntryV>::empty());
    lemma_dedup_distinct(entries, 0);
    lemma_check_sizes_fails(entries, kind, 0);
}

proof fn lemma_dedup_dup(entries: Seq<EntryV>, i: int, plan: Seq<EntryV>)
    requires
        0 <= i <= entries.len(),
        plan_wf(plan),
        forall|k: int|
            #![trigger plan[k]]
            0 <= k < plan.len() ==> exists|m: int|
                #![trigger entries[m]]
                0 <= m < i && plan[k] == entries[m],
        (exists|j: int, j2: int|
            #![trigger entries[j].size, entries[j2].size]
            i <= j < j2 < entries.len() && entries[j].size == entries[j2].size) || (exists|j: int|
            i <= j < entries.len() && find_size(plan, #[trigger] entries[j].size, 0) < plan.len()),
    ensures
        exists|p: int, q: int|
            #![trigger entries[p].pos, entries[q].pos]
            0 <= p < q < entries.len() && entries[p].size == entries[q].size && dedup_entries(
                entries,
                i,
                plan,
            ) == Err::<Seq<EntryV>, Error>(
                Error::Validation(
                    ValidationError::DuplicateSize(entries[q].size, entries[p].pos, entries[q].pos),
                ),
            ),
    decreases entries.len() - i,
{
    let k = find_size(plan, entries[i].size, 0);
    lemma_find_size_exists(plan, entries[i].size, 0);
    if k < plan.len() {
        assert(plan[k].size == entries[i].size);
        assert(exists|m: int| #![trigger entries[m]] 0 <= m < i && plan[k] == entries[m]);
        let m = choose|m: int| #![trigger entries[m]] 0 <= m < i && plan[k] == entries[m];
        assert(entries[m].size == entries[i].size);
        assert(dedup_entries(entries, i, plan) == Err::<Seq<EntryV>, Error>(
            Error::Validation(
                ValidationError::DuplicateSize(entries[i].size, entries[m].pos, entries[i].pos),
            ),
        ));
    } else {
        let plan2 = plan.push(entries[i]);
        assert forall|a: int, b: int|
            #![trigger plan2[a].size, plan2[b].size]
            0 <= a < b < plan2.len() implies plan2[a].size != plan2[b].size by {
            if b < plan.len() {
            } else {
                assert(plan2[b] == entries[i]);
                lemma_find_size_none(plan, entries[i].size, a);
            }
        }
        assert forall|kk: int|
            #![trigger plan2[kk]]
            0 <= kk < plan2.len() implies exists|m: int|
                #![trigger entries[m]]
                0 <= m < i + 1 && plan2[kk] == entries[m] by {
            if kk < plan.len() {
                assert(exists|m: int| #![trigger entries[m]] 0 <= m < i && plan[kk] == entries[m]);
                let m = choose|m: int| #![trigger entries[m]] 0 <= m < i && plan[kk] == entries[m];
                assert(plan2[kk] == entries[m]);
            } else {
                assert(plan2[kk] == entries[i]);
            }
        }
        if exists|j: int|
            i <= j < entries.len() && find_size(plan, #[trigger] entries[j].size, 0) < plan.len() {
            let j = choose|j: int|
                i <= j < entries.len() && find_size(plan, #[trigger] entries[j].size, 0)
                    < plan.len();
            lemma_find_size_exists(plan, entries[j].size, 0);
            let a = choose|a: int| 0 <= a < plan.len() && #[trigger] plan[a].size
                == entries[j].size;
            assert(j != i);
            assert(plan2[a].size == entries[j].size);
            lemma_find_size_exists(plan2, entries[j].size, 0);
        } else {
            let (j, j2) = choose|j: int, j2: int|
                #![trigger entries[j].size, entries[j2].size]
                i <= j < j2 < entries.len() && entries[j].size == entries[j2].size;
            if j == i {
                assert(plan2[plan.len() as int].size == entries[j2].size);
                lemma_find_size_exists(plan2, entries[j2].size, 0);
                assert(find_size(plan2, entries[j2].size, 0) < plan2.len());
            } else {
                assert(i + 1 <= j < j2 < entries.len() && entries[j].size == entries[j2].size);
            }
        }
        lemma_dedup_dup(entries, i + 1, plan2);
    }
}

/// Any two entries sharing a target size make validation fail with a
/// duplicate-size error naming the original positions of two entries that
/// bound that size, the earlier one first, whichever order they appear in.
pub proof fn lemma_duplicate_size_fails(entries: Seq<EntryV>, kind: IconType, a: int, b: int)
    requires
        0 <= a < b < entries.len(),
        entries[a].size == entries[b].size,
    ensures
        exists|p: int, q: int|
            #![trigger entries[p].pos, entries[q].pos]
            0 <= p < q < entries.len() && entries[p].size == entries[q].size && validate_spec(
                entries,
                kind,
            ) == Err::<Seq<EntryV>, Error>(
                Error::Validation(
                    ValidationError::DuplicateSize(entries[q].size, entries[p].pos, entries[q].pos),
                ),
            ),
{
    lemma_dedup_dup(entries, 0, Seq::empty());
}

/// When exactly one pair of entries shares a size, validation names that
/// pair's own token positions, the earlier one first, whichever order the
/// two entries appear in.
pub proof fn lemma_duplicate_size_names_the_pair(
    entries: Seq<EntryV>,
    kind: IconType,
    a: int,
    b: int,
)
    requires
        0 <= a < b < entries.len(),
        entries[a].size == entries[b].size,
        forall|p: int, q: int|
            #![trigger entries[p].size, entries[q].size]
            0 <= p < q < entries.len() && entries[p].size == entries[q].size ==> p == a && q == b,
    ensures
        validate_spec(entries, kind) == Err::<Seq<EntryV>, Error>(
            Error::Validation(
                ValidationError::DuplicateSize(entries[b].size, entries[a].pos, entries[b].pos),
            ),
        ),
{
    lemma_duplicate_size_fails(entries, kind, a, b);
    let (p, q) = choose|p: int, q: int|
        #![trigger entries[p].pos, entries[q].pos]
        0 <= p < q < entries.len() && entries[p].size == entries[q].size && validate_spec(
            entries,
            kind,
        ) == Err::<Seq<EntryV>, Error>(
            Error::Validation(
                ValidationError::DuplicateSize(entries[q].size, entries[p].pos, entries[q].pos),
            ),
        );
    assert(p == a && q == b);
}

} // verus!
