//! The registration store for mod managers: at most one registration per
//! application, and at most one of them active.
use vstd::prelude::*;
use vstd::string::*;
use crate::error::LaunchError;
use crate::text::same_text;

verus! {

/// A mod manager registered for an application.
#[derive(Debug)]
pub struct ModManagerEntry {
    pub appid: String,
    pub exe_path: String,
    pub is_active: bool,
}

impl View for ModManagerEntry {
    type V = (Seq<char>, Seq<char>, bool);

    open spec fn view(&self) -> (Seq<char>, Seq<char>, bool) {
        (self.appid@, self.exe_path@, self.is_active)
    }
}

impl ModManagerEntry {
    /// A copy of the entry.
    pub fn copy(&self) -> (r: ModManagerEntry)
        ensures
            r@ == self@,
    {
        ModManagerEntry {
            appid: self.appid.clone(),
            exe_path: self.exe_path.clone(),
            is_active: self.is_active,
        }
    }
}

/// The registrations, in the order in which they are kept.
pub struct ModManagerStore {
    entries: Vec<ModManagerEntry>,
}

/// The registration of an application is kept at position `i`.
pub open spec fn registered_at(v: Seq<(Seq<char>, Seq<char>, bool)>, appid: Seq<char>, i: int) -> bool {
    0 <= i < v.len() && v[i].0 == appid
}

/// The application has a registration.
pub open spec fn is_registered(v: Seq<(Seq<char>, Seq<char>, bool)>, appid: Seq<char>) -> bool {
    exists|i: int| registered_at(v, appid, i)
}

/// No two registrations are for the same application.
pub open spec fn ids_unique(v: Seq<(Seq<char>, Seq<char>, bool)>) -> bool {
    forall|i: int, j: int|
        0 <= i < v.len() && 0 <= j < v.len() && (#[trigger] v[i]).0 == (#[trigger] v[j]).0 ==> i == j
}

/// At most one registration is active.
pub open spec fn at_most_one_active(v: Seq<(Seq<char>, Seq<char>, bool)>) -> bool {
    forall|i: int, j: int|
        0 <= i < v.len() && 0 <= j < v.len() && (#[trigger] v[i]).2 && (#[trigger] v[j]).2 ==> i == j
}

/// Some registration is active.
pub open spec fn has_active(v: Seq<(Seq<char>, Seq<char>, bool)>) -> bool {
    exists|i: int| 0 <= i < v.len() && (#[trigger] v[i]).2
}

/// The registrations after `appid` is made the only active one.
pub open spec fn activated(v: Seq<(Seq<char>, Seq<char>, bool)>, appid: Seq<char>) -> Seq<
    (Seq<char>, Seq<char>, bool),
> {
    v.map_values(|e: (Seq<char>, Seq<char>, bool)| (e.0, e.1, e.0 == appid))
}

/// The registrations after registering `exe` for `appid` (see `add_mod_manager`).
pub open spec fn added(v: Seq<(Seq<char>, Seq<char>, bool)>, appid: Seq<char>, exe: Seq<char>) -> Seq<
    (Seq<char>, Seq<char>, bool),
> {
    if is_registered(v, appid) {
        let i = choose|i: int| registered_at(v, appid, i);
        v.update(i, (appid, exe, v[i].2))
    } else {
        v.push((appid, exe, false))
    }
}

/// The registrations after asking to make `appid` the active one: unchanged
/// when it has no registration.
pub open spec fn activation(v: Seq<(Seq<char>, Seq<char>, bool)>, appid: Seq<char>) -> Seq<
    (Seq<char>, Seq<char>, bool),
> {
    if is_registered(v, appid) {
        activated(v, appid)
    } else {
        v
    }
}

/// A change to the registrations.
pub enum StoreOp {
    /// Register an executable for an application.
    Add(Seq<char>, Seq<char>),
    /// Make an application's registration the active one.
    SetActive(Seq<char>),
}

/// The registrations after a sequence of changes, applied in order.
pub open spec fn apply_ops(v: Seq<(Seq<char>, Seq<char>, bool)>, ops: Seq<StoreOp>) -> Seq<
    (Seq<char>, Seq<char>, bool),
>
    decreases ops.len(),
{
    if ops.len() == 0 {
        v
    } else {
        let before = apply_ops(v, ops.drop_last());
        match ops.last() {
            StoreOp::Add(a, e) => added(before, a, e),
            StoreOp::SetActive(a) => activation(before, a),
        }
    }
}

/// Registering keeps one registration per application and at most one active.
pub proof fn lemma_added_wf(v: Seq<(Seq<char>, Seq<char>, bool)>, appid: Seq<char>, exe: Seq<char>)
    requires
        ids_unique(v),
        at_most_one_active(v),
    ensures
        ids_unique(added(v, appid, exe)),
        at_most_one_active(added(v, appid, exe)),
{
    let w = added(v, appid, exe);
    let n = v.len() as int;
    if is_registered(v, appid) {
        assert forall|a: int| 0 <= a < w.len() implies (#[trigger] w[a]).0 == v[a].0 && w[a].2
            == v[a].2 by {}
        assert forall|a: int, b: int|
            0 <= a < w.len() && 0 <= b < w.len() && (#[trigger] w[a]).0 == (#[trigger] w[b]).0 implies a
            == b by {
            assert(v[a].0 == v[b].0);
        }
        assert forall|a: int, b: int|
            0 <= a < w.len() && 0 <= b < w.len() && (#[trigger] w[a]).2 && (#[trigger] w[b]).2 implies a
            == b by {
            assert(v[a].2 && v[b].2);
        }
    } else {
        assert forall|a: int, b: int|
            0 <= a < w.len() && 0 <= b < w.len() && (#[trigger] w[a]).0 == (#[trigger] w[b]).0 implies a
            == b by {
            if a < n && b == n {
                assert(registered_at(v, appid, a));
            } else if b < n && a == n {
                assert(registered_at(v, appid, b));
            } else if a < n && b < n {
                assert(v[a].0 == v[b].0);
            }
        }
        assert forall|a: int, b: int|
            0 <= a < w.len() && 0 <= b < w.len() && (#[trigger] w[a]).2 && (#[trigger] w[b]).2 implies a
            == b by {
            if a < n && b < n {
                assert(v[a].2 && v[b].2);
            }
        }
    }
}

/// Activating keeps one registration per application and leaves at most one active.
pub proof fn lemma_activation_wf(v: Seq<(Seq<char>, Seq<char>, bool)>, appid: Seq<char>)
    requires
        ids_unique(v),
        at_most_one_active(v),
    ensures
        ids_unique(activation(v, appid)),
        at_most_one_active(activation(v, appid)),
{
    if is_registered(v, appid) {
        let w = activated(v, appid);
        assert forall|a: int, b: int|
            0 <= a < w.len() && 0 <= b < w.len() && (#[trigger] w[a]).0 == (#[trigger] w[b]).0 implies a
            == b by {
            assert(v[a].0 == v[b].0);
        }
        assert forall|a: int, b: int|
            0 <= a < w.len() && 0 <= b < w.len() && (#[trigger] w[a]).2 && (#[trigger] w[b]).2 implies a
            == b by {
            assert(v[a].0 == appid && v[b].0 == appid);
        }
    }
}

/// Whatever sequence of registrations and activations is applied to a store
/// that meets the invariant, at most one registration ends up active and
/// each application keeps at most one registration.
pub proof fn lemma_ops_keep_one_active(v: Seq<(Seq<char>, Seq<char>, bool)>, ops: Seq<StoreOp>)
    requires
        ids_unique(v),
        at_most_one_active(v),
    ensures
        at_most_one_active(apply_ops(v, ops)),
        ids_unique(apply_ops(v, ops)),
    decreases ops.len(),
{
    if ops.len() > 0 {
        lemma_ops_keep_one_active(v, ops.drop_last());
        let before = apply_ops(v, ops.drop_last());
        match ops.last() {
            StoreOp::Add(a, e) => lemma_added_wf(before, a, e),
            StoreOp::SetActive(a) => lemma_activation_wf(before, a),
        }
    }
}

/// Asking to activate an application without a registration changes nothing,
/// so the active registration stays the one it was.
pub proof fn lemma_failed_activation_keeps_active(
    v: Seq<(Seq<char>, Seq<char>, bool)>,
    appid: Seq<char>,
)
    requires
        !is_registered(v, appid),
    ensures
        activation(v, appid) == v,
{
}

impl View for ModManagerStore {
    type V = Seq<(Seq<char>, Seq<char>, bool)>;

    closed spec fn view(&self) -> Seq<(Seq<char>, Seq<char>, bool)> {
        self.entries@.map_values(|e: ModManagerEntry| e@)
    }
}

impl ModManagerStore {
    /// The store's invariant: one registration per application, at most one active.
    pub open spec fn wf(&self) -> bool {
        ids_unique(self@) && at_most_one_active(self@)
    }

    /// An empty store.
    pub fn new() -> (r: ModManagerStore)
        ensures
            r.wf(),
            r@ == Seq::<(Seq<char>, Seq<char>, bool)>::empty(),
    {
        let r = ModManagerStore { entries: Vec::new() };
        assert(r@ =~= Seq::<(Seq<char>, Seq<char>, bool)>::empty());
        r
    }

    /// A store holding the given registrations as they were read back, which
    /// need not meet the invariant.
    pub fn from_entries(entries: Vec<ModManagerEntry>) -> (r: ModManagerStore)
        ensures
            r@ == entries@.map_values(|e: ModManagerEntry| e@),
    {
        ModManagerStore { entries }
    }

    /// Whether the store meets its invariant (see `wf`); registrations read
    /// back from elsewhere are checked with it before they are changed.
    pub fn is_wf(&self) -> (r: bool)
        ensures
            r == self.wf(),
    {
        let n = self.entries.len();
        let mut active: Option<usize> = None;
        let mut i: usize = 0;
        while i < n
            invariant
                n == self@.len(),
                i <= n,
                forall|a: int, b: int|
                    0 <= a < i && 0 <= b < i && (#[trigger] self@[a]).0 == (#[trigger] self@[b]).0
                        ==> a == b,
                match active {
                    Some(k) => k < i && self@[k as int].2 && forall|j: int|
                        0 <= j < i && j != k ==> !(#[trigger] self@[j]).2,
                    None => forall|j: int| 0 <= j < i ==> !(#[trigger] self@[j]).2,
                },
            decreases n - i,
        {
            assert(self@[i as int] == self.entries@[i as int]@);
            let mut j: usize = 0;
            while j < i
                invariant
                    n == self@.len(),
                    j <= i < n,
                    forall|b: int| 0 <= b < j ==> (#[trigger] self@[b]).0 != self@[i as int].0,
                decreases i - j,
            {
                assert(self@[j as int] == self.entries@[j as int]@);
                if same_text(self.entries[j].appid.as_str(), self.entries[i].appid.as_str()) {
                    assert(self@[j as int].0 == self@[i as int].0);
                    return false;
                }
                j = j + 1;
            }
            if self.entries[i].is_active {
                match active {
                    Some(k) => {
                        assert(self@[k as int].2 && self@[i as int].2);
                        return false;
                    },
                    None => {
                        active = Some(i);
                    },
                }
            }
            i = i + 1;
        }
        true
    }

    /// The position of the application's registration.
    fn position(&self, appid: &str) -> (r: Option<usize>)
        ensures
            r is None <==> !is_registered(self@, appid@),
            r is Some ==> registered_at(self@, appid@, r->Some_0 as int),
    {
        let mut i: usize = 0;
        while i < self.entries.len()
            invariant
                i <= self.entries@.len(),
                forall|j: int| 0 <= j < i ==> (#[trigger] self@[j]).0 != appid@,
            decreases self.entries@.len() - i,
        {
            assert(self@[i as int] == self.entries@[i as int]@);
            if same_text(self.entries[i].appid.as_str(), appid) {
                assert(registered_at(self@, appid@, i as int));
                return Some(i);
            }
            i = i + 1;
        }
        None
    }
}

/// Registers `exe_path` for the application. An existing registration keeps
/// its place and its active flag and takes the new path; a new one is added
/// last, inactive.
pub fn add_mod_manager(store: &mut ModManagerStore, appid: &str, exe_path: &str)
    requires
        old(store).wf(),
    ensures
        final(store).wf(),
        final(store)@ == added(old(store)@, appid@, exe_path@),
{
    match store.position(appid) {
        Some(i) => {
            let active = store.entries[i].is_active;
            assert(store@[i as int] == store.entries@[i as int]@);
            let e = ModManagerEntry {
                appid: String::from_str(appid),
                exe_path: String::from_str(exe_path),
                is_active: active,
            };
            store.entries.set(i, e);
            proof {
                let k = choose|k: int| registered_at(old(store)@, appid@, k);
                assert(old(store)@[k].0 == old(store)@[i as int].0);
                assert(store@ =~= old(store)@.update(i as int, (appid@, exe_path@, active)));
            }
        },
        None => {
            let e = ModManagerEntry {
                appid: String::from_str(appid),
                exe_path: String::from_str(exe_path),
                is_active: false,
            };
            store.entries.push(e);
            proof {
                assert(store@ =~= old(store)@.push((appid@, exe_path@, false)));
            }
        },
    }
    proof {
        lemma_added_wf(old(store)@, appid@, exe_path@);
    }
}

/// Removes the application's registration; fails, changing nothing, when
/// there is none.
pub fn remove_mod_manager(store: &mut ModManagerStore, appid: &str) -> (r: Result<(), LaunchError>)
    requires
        old(store).wf(),
    ensures
        final(store).wf(),
        r is Err <==> !is_registered(old(store)@, appid@),
        r is Err ==> (final(store)@ == old(store)@ && r->Err_0 is NotRegistered
            && r->Err_0->NotRegistered_0@ == appid@),
        r is Ok ==> exists|i: int|
            registered_at(old(store)@, appid@, i) && final(store)@ == old(store)@.remove(i),
{
    match store.position(appid) {
        Some(i) => {
            store.entries.remove(i);
            proof {
                assert(store@ =~= old(store)@.remove(i as int));
                assert forall|a: int, b: int|
                    0 <= a < store@.len() && 0 <= b < store@.len() && (#[trigger] store@[a]).0
                        == (#[trigger] store@[b]).0 implies a == b by {
                    let a2 = if a < i { a } else { a + 1 };
                    let b2 = if b < i { b } else { b + 1 };
                    assert(old(store)@[a2] == store@[a]);
                    assert(old(store)@[b2] == store@[b]);
                }
                assert forall|a: int, b: int|
                    0 <= a < store@.len() && 0 <= b < store@.len() && (#[trigger] store@[a]).2
                        && (#[trigger] store@[b]).2 implies a == b by {
                    let a2 = if a < i { a } else { a + 1 };
                    let b2 = if b < i { b } else { b + 1 };
                    assert(old(store)@[a2] == store@[a]);
                    assert(old(store)@[b2] == store@[b]);
                }
            }
            Ok(())
        },
        None => Err(LaunchError::NotRegistered(String::from_str(appid))),
    }
}

/// Makes the application's registration the only active one; fails, changing
/// nothing, when it has none.
pub fn set_active(store: &mut ModManagerStore, appid: &str) -> (r: Result<(), LaunchError>)
    requires
        old(store).wf(),
    ensures
        final(store).wf(),
        r is Err <==> !is_registered(old(store)@, appid@),
        r is Err ==> (r->Err_0 is NotRegistered && r->Err_0->NotRegistered_0@ == appid@),
        final(store)@ == activation(old(store)@, appid@),
{
    if store.position(appid).is_none() {
        return Err(LaunchError::NotRegistered(String::from_str(appid)));
    }
    let ghost before = store@;
    let n = store.entries.len();
    let mut i: usize = 0;
    while i < n
        invariant
            n == store.entries@.len(),
            before.len() == n,
            i <= n,
            forall|j: int| 0 <= j < i ==> (#[trigger] store@[j]) == activated(before, appid@)[j],
            forall|j: int| i <= j < n ==> (#[trigger] store@[j]) == before[j],
        decreases n - i,
    {
        assert(store@[i as int] == store.entries@[i as int]@);
        let hit = same_text(store.entries[i].appid.as_str(), appid);
        let e = ModManagerEntry {
            appid: store.entries[i].appid.clone(),
            exe_path: store.entries[i].exe_path.clone(),
            is_active: hit,
        };
        let ghost mid = store@;
        store.entries.set(i, e);
        proof {
            assert(store@ =~= mid.update(i as int, (before[i as int].0, before[i as int].1, hit)));
        }
        i = i + 1;
    }
    proof {
        assert(store@ =~= activated(before, appid@));
        lemma_activation_wf(before, appid@);
    }
    Ok(())
}

/// The registrations, in the order in which they are kept.
pub fn list_mod_managers(store: &ModManagerStore) -> (r: Vec<ModManagerEntry>)
    ensures
        r@.map_values(|e: ModManagerEntry| e@) == store@,
{
    let mut r: Vec<ModManagerEntry> = Vec::new();
    let mut i: usize = 0;
    while i < store.entries.len()
        invariant
            i <= store.entries@.len(),
            r@.len() == i,
            forall|j: int| 0 <= j < i ==> (#[trigger] r@[j])@ == store@[j],
        decreases store.entries@.len() - i,
    {
        r.push(store.entries[i].copy());
        i = i + 1;
    }
    assert(r@.map_values(|e: ModManagerEntry| e@) =~= store@);
    r
}

/// The active registration: none when no registration is active, an error
/// when more than one is.
pub fn get_active(store: &ModManagerStore) -> (r: Result<Option<ModManagerEntry>, LaunchError>)
    ensures
        !has_active(store@) ==> (r is Ok && r->Ok_0 is None),
        (has_active(store@) && at_most_one_active(store@)) ==> (r is Ok && r->Ok_0 is Some
            && exists|i: int| 0 <= i < store@.len() && store@[i].2 && r->Ok_0->Some_0@ == store@[i]),
        !at_most_one_active(store@) ==> (r is Err && r->Err_0 is MultipleActive),
{
    let mut found: Option<usize> = None;
    let mut i: usize = 0;
    while i < store.entries.len()
        invariant
            i <= store.entries@.len(),
            match found {
                Some(k) => k < i && store@[k as int].2 && forall|j: int|
                    0 <= j < i && j != k ==> !(#[trigger] store@[j]).2,
                None => forall|j: int| 0 <= j < i ==> !(#[trigger] store@[j]).2,
            },
        decreases store.entries@.len() - i,
    {
        if store.entries[i].is_active {
            match found {
                Some(k) => {
                    assert(store@[k as int].2 && store@[i as int].2);
                    return Err(LaunchError::MultipleActive);
                },
                None => {
                    found = Some(i);
                },
            }
        }
        i = i + 1;
    }
    match found {
        Some(k) => Ok(Some(store.entries[k].copy())),
        None => Ok(None),
    }
}

} // verus!
