//! Applications run side by side, ordered by priority when the collection is
//! built: higher priorities first, and among equal priorities the one
//! registered last first.

use vstd::prelude::*;

verus! {

/// Collects applications with their priorities and names.
pub struct AsyncAppsBuilder<A> {
    apps: Vec<(u8, &'static str, A)>,
}

/// Applications in the order they are given events and packets.
pub struct AsyncAppsBase<A> {
    apps: Vec<(u8, &'static str, A)>,
}

/// `r` is `s` ordered by priority, highest first; among equal priorities
/// the later in `s` comes first. `perm` tells, for each position of `r`,
/// the position in `s` it came from.
pub open spec fn ordered_by_priority<A>(
    s: Seq<(u8, &'static str, A)>,
    r: Seq<(u8, &'static str, A)>,
    perm: Seq<int>,
) -> bool {
    &&& r.len() == s.len()
    &&& perm.len() == s.len()
    &&& forall|i: int| 0 <= i < perm.len() ==> 0 <= #[trigger] perm[i] < s.len()
    &&& forall|i: int, j: int| 0 <= i < perm.len() && 0 <= j < perm.len() && i != j ==> #[trigger] perm[i] != #[trigger] perm[j]
    &&& forall|i: int| 0 <= i < r.len() ==> #[trigger] r[i] == s[perm[i]]
    &&& forall|i: int, j: int|
        0 <= i < j < r.len() ==> (#[trigger] r[i]).0 > (#[trigger] r[j]).0 || (r[i].0 == r[j].0 && perm[i] > perm[j])
}

impl<A> AsyncAppsBuilder<A> {
    /// The applications registered so far, in order.
    pub closed spec fn spec_apps(&self) -> Seq<(u8, &'static str, A)> {
        self.apps@
    }

    /// A builder with no application.
    pub fn new() -> (r: AsyncAppsBuilder<A>)
        ensures
            r.spec_apps().len() == 0,
    {
        AsyncAppsBuilder { apps: Vec::new() }
    }

    /// Registers `app` under `name` with `priority`.
    pub fn with(&mut self, priority: u8, name: &'static str, app: A)
        ensures
            final(self).spec_apps() == old(self).spec_apps().push((priority, name, app)),
    {
        self.apps.push((priority, name, app));
    }

    /// The applications ordered by priority, highest first; among equal
    /// priorities the one registered last comes first.
    pub fn build(self) -> (r: AsyncAppsBase<A>)
        ensures
            exists|perm: Seq<int>| ordered_by_priority(self.spec_apps(), r.spec_apps(), perm),
    {
        let ghost orig = self.spec_apps();
        let mut apps = self.apps;
        let ghost s = apps@;
        let mut out: Vec<(u8, &'static str, A)> = Vec::new();
        let ghost mut perm: Seq<int> = Seq::empty();
        let ghost mut k: int = 0;
        while apps.len() > 0
            invariant
                0 <= k <= s.len(),
                apps@ == s.skip(k),
                out@.len() == k,
                perm.len() == k,
                forall|i: int| 0 <= i < perm.len() ==> 0 <= #[trigger] perm[i] < k,
                forall|i: int, j: int| 0 <= i < perm.len() && 0 <= j < perm.len() && i != j ==> #[trigger] perm[i] != #[trigger] perm[j],
                forall|i: int| 0 <= i < out@.len() ==> #[trigger] out@[i] == s[perm[i]],
                forall|i: int, j: int|
                    0 <= i < j < out@.len() ==> (#[trigger] out@[i]).0 > (#[trigger] out@[j]).0 || (out@[i].0
                        == out@[j].0 && perm[i] > perm[j]),
            decreases apps@.len(),
        {
            let e = apps.remove(0);
            proof {
                assert(e == s[k]);
                assert(apps@ =~= s.skip(k + 1));
            }
            let mut pos: usize = 0;
            while pos < out.len() && out[pos].0 > e.0
                invariant
                    pos <= out@.len(),
                    forall|i: int| 0 <= i < pos ==> (#[trigger] out@[i]).0 > e.0,
                decreases out@.len() - pos,
            {
                pos = pos + 1;
            }
            let ghost old_out = out@;
            let ghost old_perm = perm;
            out.insert(pos, e);
            proof {
                perm = old_perm.insert(pos as int, k);
                assert forall|j: int| pos <= j < old_out.len() implies (#[trigger] old_out[j]).0 <= e.0 by {
                    if pos < old_out.len() {
                        assert(old_out[pos as int].0 <= e.0);
                        if j > pos {
                            assert(old_out[pos as int].0 > old_out[j].0 || old_out[pos as int].0 == old_out[j].0);
                        }
                    }
                }
                assert forall|i: int| 0 <= i < out@.len() implies #[trigger] out@[i] == s[perm[i]] by {
                    if i < pos {
                        assert(out@[i] == old_out[i] && perm[i] == old_perm[i]);
                    } else if i > pos {
                        assert(out@[i] == old_out[i - 1] && perm[i] == old_perm[i - 1]);
                    }
                }
                assert forall|i: int| 0 <= i < perm.len() implies 0 <= #[trigger] perm[i] < k + 1 by {
                    if i < pos {
                        assert(perm[i] == old_perm[i]);
                    } else if i > pos {
                        assert(perm[i] == old_perm[i - 1]);
                    }
                }
                assert forall|i: int, j: int| 0 <= i < perm.len() && 0 <= j < perm.len() && i != j implies #[trigger] perm[i]
                    != #[trigger] perm[j] by {
                    let i0 = if i < pos { i } else { i - 1 };
                    let j0 = if j < pos { j } else { j - 1 };
                    if i != pos && j != pos {
                        assert(perm[i] == old_perm[i0] && perm[j] == old_perm[j0]);
                    } else if i == pos {
                        assert(perm[j] == old_perm[j0]);
                    } else {
                        assert(perm[i] == old_perm[i0]);
                    }
                }
                assert forall|i: int, j: int| 0 <= i < j < out@.len() implies (#[trigger] out@[i]).0 > (
                #[trigger] out@[j]).0 || (out@[i].0 == out@[j].0 && perm[i] > perm[j]) by {
                    let i0 = if i < pos { i } else { i - 1 };
                    let j0 = if j < pos { j } else { j - 1 };
                    if i != pos && j != pos {
                        assert(out@[i] == old_out[i0] && out@[j] == old_out[j0]);
                        assert(perm[i] == old_perm[i0] && perm[j] == old_perm[j0]);
                        assert(i0 < j0);
                    } else if i == pos {
                        assert(out@[j] == old_out[j0] && perm[j] == old_perm[j0]);
                        assert(old_out[j0].0 <= e.0);
                    } else {
                        assert(out@[i] == old_out[i0]);
                        assert(old_out[i0].0 > e.0);
                    }
                }
                k = k + 1;
            }
        }
        let r = AsyncAppsBase { apps: out };
        proof {
            assert(s == orig);
            assert(k == s.len());
            assert(ordered_by_priority(orig, r.spec_apps(), perm));
        }
        r
    }
}

impl<A> AsyncAppsBase<A> {
    /// The applications, in the order they run.
    pub closed spec fn spec_apps(&self) -> Seq<(u8, &'static str, A)> {
        self.apps@
    }

    /// Runs the given applications in the given order.
    pub fn new(apps: Vec<(u8, &'static str, A)>) -> (r: AsyncAppsBase<A>)
        ensures
            r.spec_apps() == apps@,
    {
        AsyncAppsBase { apps }
    }

    /// The names of the applications, in the order they run.
    pub fn names(&self) -> (r: Vec<&'static str>)
        ensures
            r@.len() == self.spec_apps().len(),
            forall|i: int| 0 <= i < r@.len() ==> r@[i] == (#[trigger] self.spec_apps()[i]).1,
    {
        let mut out: Vec<&'static str> = Vec::new();
        let mut i: usize = 0;
        while i < self.apps.len()
            invariant
                i <= self.apps@.len(),
                out@.len() == i,
                forall|k: int| 0 <= k < i ==> out@[k] == (#[trigger] self.apps@[k]).1,
            decreases self.apps@.len() - i,
        {
            out.push(self.apps[i].1);
            i = i + 1;
        }
        out
    }
}

} // verus!
