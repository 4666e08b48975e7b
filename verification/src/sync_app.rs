//! Applications run one after another, ordered by priority as they are
//! registered.

use vstd::prelude::*;

verus! {

/// Collects applications with their priorities and names.
pub struct SyncAppsBuilder<A> {
    apps: Vec<(u8, &'static str, A)>,
}

/// The position at which a registration with priority `p` stops looking:
/// the first application whose priority is not above `p`, or the end.
pub open spec fn stop_index<A>(apps: Seq<(u8, &'static str, A)>, p: u8) -> int
    decreases apps.len(),
{
    if apps.len() == 0 {
        0
    } else if p >= apps[0].0 {
        0
    } else {
        1 + stop_index(apps.drop_first(), p)
    }
}

/// The applications after registering `app` with priority `p`: into an
/// empty list it goes alone; otherwise the registration looks for the first
/// application whose priority is not above `p`, and puts the new one right
/// after it where its priority is below `p`. Where that priority equals `p`,
/// or where every priority is above `p`, the new application is dropped.
pub open spec fn spec_insert<A>(apps: Seq<(u8, &'static str, A)>, p: u8, name: &'static str, app: A) -> Seq<
    (u8, &'static str, A),
> {
    let k = stop_index(apps, p);
    if apps.len() == 0 {
        seq![(p, name, app)]
    } else if k < apps.len() && p > apps[k].0 {
        apps.insert(k + 1, (p, name, app))
    } else {
        apps
    }
}

/// Where the first `i` priorities are above `p` and the one at `i`, if any,
/// is not, the search stops at `i`.
proof fn lemma_stop_index<A>(apps: Seq<(u8, &'static str, A)>, p: u8, i: int)
    requires
        0 <= i <= apps.len(),
        forall|j: int| 0 <= j < i ==> p < (#[trigger] apps[j]).0,
        i == apps.len() || p >= apps[i].0,
    ensures
        stop_index(apps, p) == i,
    decreases i,
{
    if i > 0 {
        assert forall|j: int| 0 <= j < i - 1 implies p < (#[trigger] apps.drop_first()[j]).0 by {
            assert(apps.drop_first()[j] == apps[j + 1]);
        }
        if i < apps.len() {
            assert(apps.drop_first()[i - 1] == apps[i]);
        }
        lemma_stop_index(apps.drop_first(), p, i - 1);
    }
}

impl<A> SyncAppsBuilder<A> {
    /// The applications registered so far, in the builder's order.
    pub closed spec fn spec_apps(&self) -> Seq<(u8, &'static str, A)> {
        self.apps@
    }

    /// A builder with no application.
    pub fn new() -> (r: SyncAppsBuilder<A>)
        ensures
            r.spec_apps().len() == 0,
    {
        SyncAppsBuilder { apps: Vec::new() }
    }

    /// Registers `app` under `name` with `priority`.
    pub fn with(&mut self, priority: u8, name: &'static str, app: A)
        ensures
            final(self).spec_apps() == spec_insert(old(self).spec_apps(), priority, name, app),
    {
        self.insert(priority, name, app);
    }

    /// Puts `app` where `spec_insert` says.
    fn insert(&mut self, priority: u8, name: &'static str, app: A)
        ensures
            final(self).spec_apps() == spec_insert(old(self).spec_apps(), priority, name, app),
    {
        if self.apps.len() == 0 {
            self.apps.push((priority, name, app));
            proof {
                assert(self.apps@ =~= seq![(priority, name, app)]);
            }
            return;
        }
        let ghost start = self.apps@;
        let mut i: usize = 0;
        while i < self.apps.len()
            invariant
                i <= start.len(),
                start.len() > 0,
                self.apps@ == start,
                start == old(self).apps@,
                forall|j: int| 0 <= j < i ==> priority < (#[trigger] start[j]).0,
            decreases start.len() - i,
        {
            let p = self.apps[i].0;
            if priority > p {
                proof {
                    lemma_stop_index(start, priority, i as int);
                }
                self.apps.insert(i + 1, (priority, name, app));
                return;
            } else if priority == p {
                proof {
                    lemma_stop_index(start, priority, i as int);
                }
                return;
            }
            i = i + 1;
        }
        proof {
            lemma_stop_index(start, priority, i as int);
        }
    }

    /// The applications in the order they run: the reverse of the builder's.
    pub fn build(self) -> (r: SyncAppsBase<A>)
        ensures
            r.spec_apps() == self.spec_apps().reverse(),
    {
        let mut apps = self.apps;
        let ghost start = apps@;
        let mut out: Vec<(u8, &'static str, A)> = Vec::new();
        while apps.len() > 0
            invariant
                apps@.len() <= start.len(),
                apps@ == start.take(apps@.len() as int),
                out@ == start.skip(apps@.len() as int).reverse(),
            decreases apps@.len(),
        {
            let item = apps.pop().unwrap();
            out.push(item);
            proof {
                assert(apps@ =~= start.take(apps@.len() as int));
                assert(out@ =~= start.skip(apps@.len() as int).reverse());
            }
        }
        proof {
            assert(start.skip(0) =~= start);
        }
        SyncAppsBase::new(out)
    }
}

/// Applications in the order they run.
pub struct SyncAppsBase<A> {
    apps: Vec<(u8, &'static str, A)>,
}

impl<A> SyncAppsBase<A> {
    /// The applications, in the order they run.
    pub closed spec fn spec_apps(&self) -> Seq<(u8, &'static str, A)> {
        self.apps@
    }

    /// Runs the given applications in the given order.
    pub fn new(apps: Vec<(u8, &'static str, A)>) -> (r: SyncAppsBase<A>)
        ensures
            r.spec_apps() == apps@,
    {
        SyncAppsBase { apps }
    }

    /// The names of the applications, in the order they run.
    pub fn names(&self) -> (r: Vec<&'static str>)
        ensures
            r@.len() == self.spec_apps().len(),
            forall|i: int| 0 <= i < r@.len() ==> r@[i] == (#[trigger] self.spec_apps()[i]).1,
    {
        let mut out: Vec<&'static str> = Vec::new();
        let mut i: usize = 0;
        while i < self.apps.len()
            invariant
                i <= self.apps@.len(),
                out@.len() == i,
                forall|k: int| 0 <= k < i ==> out@[k] == (#[trigger] self.apps@[k]).1,
            decreases self.apps@.len() - i,
        {
            out.push(self.apps[i].1);
            i = i + 1;
        }
        out
    }
}

} // verus!
