//! The credential registry and its partition into groups that share a
//! rotation period.
use vstd::prelude::*;
use crate::window::Period;

verus! {

/// A named credential and the period its tokens rotate with. The token
/// generator itself lives with the caller, at the same index of the registry.
#[derive(Debug)]
pub struct Credential {
    pub name: String,
    pub period: Period,
}

/// The credentials that share one period, by their index in the registry,
/// in registry order.
#[derive(Debug)]
pub struct PeriodGroup {
    pub period: Period,
    pub members: Vec<usize>,
}

/// The length in seconds of the period of credential `i`.
pub open spec fn period_secs(creds: Seq<Credential>, i: int) -> nat {
    creds[i].period.seconds()
}

/// The indices in `m` are strictly ascending.
pub open spec fn ascending(m: Seq<usize>) -> bool {
    forall|a: int, b: int| 0 <= a < b < m.len() ==> m[a] < m[b]
}

/// `m` lists, in ascending order, exactly the credentials whose period is
/// `secs` seconds long.
pub open spec fn lists_period(creds: Seq<Credential>, secs: nat, m: Seq<usize>) -> bool {
    &&& ascending(m)
    &&& forall|k: int| 0 <= k < m.len() ==> (#[trigger] m[k]) < creds.len()
    &&& forall|k: int| 0 <= k < m.len() ==> period_secs(creds, #[trigger] m[k] as int) == secs
    &&& forall|i: usize|
        i < creds.len() && period_secs(creds, i as int) == secs ==> #[trigger] m.contains(i)
}

/// `groups` partitions `creds` by period: one non-empty group per period
/// that occurs, in ascending order of period length, each listing exactly
/// the credentials of that period in registry order.
pub open spec fn is_grouping(creds: Seq<Credential>, groups: Seq<PeriodGroup>) -> bool {
    &&& forall|g: int, h: int|
        0 <= g < h < groups.len() ==> groups[g].period.seconds() < groups[h].period.seconds()
    &&& forall|g: int|
        0 <= g < groups.len() ==> (#[trigger] groups[g]).members@.len() > 0 && lists_period(
            creds,
            groups[g].period.seconds(),
            groups[g].members@,
        )
    &&& forall|i: int| 0 <= i < creds.len() ==> has_group(groups, #[trigger] period_secs(creds, i))
}

/// Some group in `groups` has a period `secs` seconds long.
pub open spec fn has_group(groups: Seq<PeriodGroup>, secs: nat) -> bool {
    exists|g: int| 0 <= g < groups.len() && (#[trigger] groups[g]).period.seconds() == secs
}

/// Groups the credentials by period, shortest period first.
pub fn group_by_period(creds: &Vec<Credential>) -> (groups: Vec<PeriodGroup>)
    ensures
        is_grouping(creds@, groups@),
{
    let n = creds.len();
    let mut groups: Vec<PeriodGroup> = Vec::new();
    let mut lo: u64 = 0;
    loop
        invariant
            n == creds@.len(),
            forall|g: int, h: int|
                0 <= g < h < groups@.len() ==> groups@[g].period.seconds()
                    < groups@[h].period.seconds(),
            forall|g: int|
                0 <= g < groups@.len() ==> (#[trigger] groups@[g]).period.seconds() <= lo,
            forall|g: int|
                0 <= g < groups@.len() ==> (#[trigger] groups@[g]).members@.len() > 0
                    && lists_period(creds@, groups@[g].period.seconds(), groups@[g].members@),
            forall|i: int|
                0 <= i < n && 0 < period_secs(creds@, i) <= lo ==> has_group(
                    groups@,
                    #[trigger] period_secs(creds@, i),
                ),
        decreases u64::MAX - lo,
    {
        // the shortest period longer than `lo`
        let mut best: Option<usize> = None;
        let mut i: usize = 0;
        while i < n
            invariant
                n == creds@.len(),
                i <= n,
                forall|j: int| 0 <= j < i ==> period_secs(creds@, j) > 0,
                best is None ==> forall|j: int| 0 <= j < i ==> period_secs(creds@, j) <= lo,
                best matches Some(b) ==> b < i && period_secs(creds@, b as int) > lo && forall|
                    j: int,
                | 0 <= j < i && period_secs(creds@, j) > lo ==> period_secs(creds@, b as int)
                    <= period_secs(creds@, j),
            decreases n - i,
        {
            let p = creds[i].period.as_secs();
            match best {
                None => {
                    if p > lo {
                        best = Some(i);
                    }
                },
                Some(b) => {
                    if p > lo && p < creds[b].period.as_secs() {
                        best = Some(i);
                    }
                },
            }
            i += 1;
        }
        match best {
            None => {
                assert forall|i: int| 0 <= i < n implies has_group(
                    groups@,
                    #[trigger] period_secs(creds@, i),
                ) by {
                    assert(period_secs(creds@, i) <= lo);
                }
                return groups;
            },
            Some(b) => {
                let period = creds[b].period;
                let secs = period.as_secs();
                let mut members: Vec<usize> = Vec::new();
                let mut k: usize = 0;
                while k < n
                    invariant
                        n == creds@.len(),
                        k <= n,
                        secs == period.seconds(),
                        ascending(members@),
                        forall|x: int|
                            0 <= x < members@.len() ==> (#[trigger] members@[x]) < k,
                        forall|x: int|
                            0 <= x < members@.len() ==> period_secs(
                                creds@,
                                #[trigger] members@[x] as int,
                            ) == secs,
                        forall|j: usize|
                            j < k && period_secs(creds@, j as int) == secs
                                ==> #[trigger] members@.contains(j),
                    decreases n - k,
                {
                    if creds[k].period.as_secs() == secs {
                        let ghost before = members@;
                        members.push(k);
                        proof {
                            assert forall|j: usize|
                                j < k + 1 && period_secs(creds@, j as int)
                                    == secs implies #[trigger] members@.contains(j) by {
                                if j < k {
                                    assert(before.contains(j));
                                    let x = choose|x: int| 0 <= x < before.len() && before[x] == j;
                                    assert(members@[x] == j);
                                } else {
                                    assert(members@[members@.len() - 1] == j);
                                }
                            }
                        }
                    }
                    k += 1;
                }
                assert(members@.contains(b));
                let ghost old_groups = groups@;
                groups.push(PeriodGroup { period, members });
                proof {
                    let last = groups@.len() - 1;
                    assert(groups@[last].period.seconds() == secs);
                    assert forall|i: int|
                        0 <= i < n && 0 < period_secs(creds@, i) <= secs implies has_group(
                        groups@,
                        #[trigger] period_secs(creds@, i),
                    ) by {
                        if period_secs(creds@, i) <= lo {
                            let g = choose|g: int|
                                0 <= g < old_groups.len() && (#[trigger] old_groups[g]).period.seconds()
                                    == period_secs(creds@, i);
                            assert(groups@[g] == old_groups[g]);
                        } else {
                            assert(groups@[last].period.seconds() == period_secs(creds@, i));
                        }
                    }
                    assert forall|g: int|
                        0 <= g < groups@.len() implies (#[trigger] groups@[g]).members@.len() > 0
                            && lists_period(
                            creds@,
                            groups@[g].period.seconds(),
                            groups@[g].members@,
                        ) by {
                        if g < last {
                            assert(groups@[g] == old_groups[g]);
                        }
                    }
                }
                lo = secs;
            },
        }
    }
}

/// Credential `i` is a member of some group.
pub open spec fn in_some_group(groups: Seq<PeriodGroup>, i: usize) -> bool {
    exists|g: int| 0 <= g < groups.len() && (#[trigger] groups[g].members@).contains(i)
}

/// Every credential belongs to exactly one group, and appears there once.
pub proof fn lemma_each_credential_in_one_group(creds: Seq<Credential>, groups: Seq<PeriodGroup>)
    requires
        is_grouping(creds, groups),
    ensures
        forall|i: usize| i < creds.len() ==> #[trigger] in_some_group(groups, i),
        forall|i: usize, g: int, h: int|
            0 <= g < groups.len() && 0 <= h < groups.len() && #[trigger] groups[g].members@.contains(i)
                && #[trigger] groups[h].members@.contains(i) ==> g == h,
        forall|g: int, a: int, b: int|
            0 <= g < groups.len() && 0 <= a < groups[g].members@.len() && 0 <= b
                < groups[g].members@.len() && (#[trigger] groups[g].members@[a])
                == (#[trigger] groups[g].members@[b]) ==> a == b,
{
    assert forall|i: usize| i < creds.len() implies #[trigger] in_some_group(groups, i) by {
        assert(has_group(groups, period_secs(creds, i as int)));
        let g = choose|g: int|
            0 <= g < groups.len() && (#[trigger] groups[g]).period.seconds() == period_secs(
                creds,
                i as int,
            );
        assert(groups[g].members@.contains(i));
    }
    assert forall|i: usize, g: int, h: int|
        0 <= g < groups.len() && 0 <= h < groups.len() && #[trigger] groups[g].members@.contains(i)
            && #[trigger] groups[h].members@.contains(i) implies g == h by {
        let x = choose|x: int| 0 <= x < groups[g].members@.len() && groups[g].members@[x] == i;
        let y = choose|y: int| 0 <= y < groups[h].members@.len() && groups[h].members@[y] == i;
        assert(groups[g].period.seconds() == period_secs(creds, i as int));
        assert(groups[h].period.seconds() == period_secs(creds, i as int));
    }
}

/// Two strictly ascending sequences with the same elements are equal.
proof fn lemma_ascending_unique(x: Seq<int>, y: Seq<int>)
    requires
        forall|a: int, b: int| 0 <= a < b < x.len() ==> x[a] < x[b],
        forall|a: int, b: int| 0 <= a < b < y.len() ==> y[a] < y[b],
        forall|v: int| x.contains(v) <==> y.contains(v),
    ensures
        x == y,
    decreases x.len(),
{
    if x.len() == 0 {
        if y.len() > 0 {
            assert(y.contains(y[0]));
        }
        assert(x =~= y);
    } else {
        assert(x.contains(x[0]));
        assert(y.len() > 0);
        assert(y.contains(y[0]));
        let j = choose|j: int| 0 <= j < y.len() && y[j] == x[0];
        let i = choose|i: int| 0 <= i < x.len() && x[i] == y[0];
        assert(x[0] == y[0]);
        let xs = x.drop_first();
        let ys = y.drop_first();
        assert forall|v: int| xs.contains(v) implies ys.contains(v) by {
            let a = choose|a: int| 0 <= a < xs.len() && xs[a] == v;
            assert(x[a + 1] == v);
            assert(y.contains(v));
            let b = choose|b: int| 0 <= b < y.len() && y[b] == v;
            assert(b != 0);
            assert(ys[b - 1] == v);
        }
        assert forall|v: int| ys.contains(v) implies xs.contains(v) by {
            let b = choose|b: int| 0 <= b < ys.len() && ys[b] == v;
            assert(y[b + 1] == v);
            assert(x.contains(v));
            let a = choose|a: int| 0 <= a < x.len() && x[a] == v;
            assert(a != 0);
            assert(xs[a - 1] == v);
        }
        lemma_ascending_unique(xs, ys);
        assert(x =~= seq![x[0]] + xs);
        assert(y =~= seq![y[0]] + ys);
    }
}

/// The grouping of a set of credentials is unique: any two groupings of the
/// same credentials hold the same groups in the same order with the same
/// members in the same order, so every run shows the same layout.
pub proof fn lemma_grouping_deterministic(
    creds: Seq<Credential>,
    a: Seq<PeriodGroup>,
    b: Seq<PeriodGroup>,
)
    requires
        is_grouping(creds, a),
        is_grouping(creds, b),
    ensures
        a.len() == b.len(),
        forall|g: int|
            0 <= g < a.len() ==> (#[trigger] a[g]).period == b[g].period && a[g].members@
                == b[g].members@,
{
    let pa = Seq::new(a.len(), |g: int| a[g].period.seconds() as int);
    let pb = Seq::new(b.len(), |g: int| b[g].period.seconds() as int);
    assert forall|v: int| pa.contains(v) implies pb.contains(v) by {
        let g = choose|g: int| 0 <= g < pa.len() && pa[g] == v;
        assert(a[g].members@.len() > 0);
        let i = a[g].members@[0];
        assert(has_group(b, period_secs(creds, i as int)));
        let h = choose|h: int|
            0 <= h < b.len() && (#[trigger] b[h]).period.seconds() == period_secs(creds, i as int);
        assert(pb[h] == v);
    }
    assert forall|v: int| pb.contains(v) implies pa.contains(v) by {
        let h = choose|h: int| 0 <= h < pb.len() && pb[h] == v;
        assert(b[h].members@.len() > 0);
        let i = b[h].members@[0];
        assert(has_group(a, period_secs(creds, i as int)));
        let g = choose|g: int|
            0 <= g < a.len() && (#[trigger] a[g]).period.seconds() == period_secs(creds, i as int);
        assert(pa[g] == v);
    }
    lemma_ascending_unique(pa, pb);
    assert(pa.len() == pb.len());
    assert forall|g: int| 0 <= g < a.len() implies (#[trigger] a[g]).period == b[g].period
        && a[g].members@ == b[g].members@ by {
        assert(pa[g] == pb[g]);
        Period::lemma_same_length(a[g].period, b[g].period);
        let ma = a[g].members@;
        let mb = b[g].members@;
        let xa = Seq::new(ma.len(), |k: int| ma[k] as int);
        let xb = Seq::new(mb.len(), |k: int| mb[k] as int);
        assert forall|v: int| xa.contains(v) implies xb.contains(v) by {
            let k = choose|k: int| 0 <= k < xa.len() && xa[k] == v;
            assert(mb.contains(ma[k]));
            let l = choose|l: int| 0 <= l < mb.len() && mb[l] == ma[k];
            assert(xb[l] == v);
        }
        assert forall|v: int| xb.contains(v) implies xa.contains(v) by {
            let k = choose|k: int| 0 <= k < xb.len() && xb[k] == v;
            assert(ma.contains(mb[k]));
            let l = choose|l: int| 0 <= l < ma.len() && ma[l] == mb[k];
            assert(xa[l] == v);
        }
        lemma_ascending_unique(xa, xb);
        assert(xa.len() == xb.len());
        assert forall|k: int| 0 <= k < ma.len() implies ma[k] == mb[k] by {
            assert(xa[k] == xb[k]);
        }
        assert(ma =~= mb);
    }
}

} // verus!
