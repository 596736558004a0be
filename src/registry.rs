use crate::clock::now_ts;
use crate::config::HotspotConfig;
use crate::admission::{check_admission, Admission};
use crate::keys::resource_id;
use crate::window::{observed, unexpired, HotspotManager};
use dashmap::DashMap;
use vstd::prelude::*;
use vstd::string::StringExecFns;

verus! {

#[verifier::external_type_specification]
#[verifier::external_body]
#[verifier::reject_recursive_types(K)]
#[verifier::reject_recursive_types(V)]
#[verifier::reject_recursive_types(S)]
pub struct ExDashMap<K, V, S>(DashMap<K, V, S>);

/// The concurrent map that holds each namespace's window.
pub type WindowTable = DashMap<String, HotspotManager>;

/// The windows that a table holds, by namespace.
pub uninterp spec fn windows_in(m: WindowTable) -> Map<Seq<char>, HotspotManager>;

/// Relies on `DashMap::new`: the map starts empty.
#[verifier::external_body]
fn empty_table() -> (r: WindowTable)
    ensures
        windows_in(r).dom() == Set::<Seq<char>>::empty(),
{
    DashMap::new()
}

/// Relies on `DashMap::remove`: the entry for `namespace` leaves the map, and its
/// value is handed back when there was one.
#[verifier::external_body]
fn take_window(m: &mut WindowTable, namespace: &str) -> (r: Option<HotspotManager>)
    ensures
        windows_in(*final(m)) == windows_in(*old(m)).remove(namespace@),
        match r {
            Some(w) => windows_in(*old(m)).contains_key(namespace@) && w == windows_in(*old(m))[namespace@],
            None => !windows_in(*old(m)).contains_key(namespace@),
        },
{
    m.remove(namespace).map(|(_, w)| w)
}

/// Relies on `DashMap::insert`: `namespace` maps to `w` afterwards, the other
/// entries stay.
#[verifier::external_body]
fn put_window(m: &mut WindowTable, namespace: String, w: HotspotManager)
    ensures
        windows_in(*final(m)) == windows_in(*old(m)).insert(namespace@, w),
{
    m.insert(namespace, w);
}

/// Relies on `DashMap::iter`: it visits every entry once, in no particular order.
#[verifier::external_body]
fn table_namespaces(m: &WindowTable) -> (r: Vec<String>)
    ensures
        forall|i: int| 0 <= i < r@.len() ==> windows_in(*m).contains_key(#[trigger] r@[i]@),
        forall|ns: Seq<char>| #[trigger]
            windows_in(*m).contains_key(ns) ==> exists|i: int| 0 <= i < r@.len() && #[trigger] r@[i]@ == ns,
        forall|i: int, j: int| 0 <= i < j < r@.len() ==> #[trigger] r@[i]@ != #[trigger] r@[j]@,
{
    m.iter().map(|e| e.key().clone()).collect()
}

/// What `detect` reports for one event.
#[derive(Clone, Copy, Debug, PartialEq, Eq, Structural)]
pub enum Outcome {
    /// Ordinary traffic: the limiter admitted the event.
    Ignored,
    /// A candidate whose key was already let through within the window.
    AlreadyKnown,
    /// A candidate let through as a new hotspot: the one emission of its window.
    NewHotspot,
}

/// The registry as a whole: each namespace's window, as its records.
pub type RegistryView = Map<Seq<char>, Map<Seq<char>, int>>;

/// The records of `namespace`; a namespace with no window yet has none.
pub open spec fn window_of(v: RegistryView, namespace: Seq<char>) -> Map<Seq<char>, int> {
    if v.contains_key(namespace) {
        v[namespace]
    } else {
        Map::empty()
    }
}

/// The records of `namespace` that are still live at `now`: a record a full
/// window old no longer counts, whether or not a reap has run since.
pub open spec fn live_window(v: RegistryView, namespace: Seq<char>, now: int, window: int) -> Map<Seq<char>, int> {
    unexpired(window_of(v, namespace), now, window)
}

/// What an event at `now` reports, given what the limiter said of it.
pub open spec fn detect_outcome(
    v: RegistryView,
    namespace: Seq<char>,
    key: Seq<char>,
    admission: Admission,
    now: int,
    window: int,
) -> Outcome {
    if admission == Admission::Admitted {
        Outcome::Ignored
    } else if live_window(v, namespace, now, window).contains_key(key) {
        Outcome::AlreadyKnown
    } else {
        Outcome::NewHotspot
    }
}

/// The registry after an event at `now`: an admitted event changes nothing; a
/// candidate reaps its namespace's window at `now` (making the window if need
/// be) and is then observed in it.
pub open spec fn after_detect(
    v: RegistryView,
    namespace: Seq<char>,
    key: Seq<char>,
    admission: Admission,
    now: int,
    window: int,
) -> RegistryView {
    if admission == Admission::Admitted {
        v
    } else {
        v.insert(namespace, observed(live_window(v, namespace, now, window), key, now))
    }
}

/// The registry after every window is reaped at `now`.
pub open spec fn after_reap(v: RegistryView, now: int, window: int) -> RegistryView {
    Map::new(|ns: Seq<char>| v.contains_key(ns), |ns: Seq<char>| unexpired(v[ns], now, window))
}

/// The windows of all namespaces, each made the first time its namespace has a
/// candidate and kept from then on.
pub struct HotspotRegistry {
    windows: WindowTable,
    config: HotspotConfig,
}

impl View for HotspotRegistry {
    type V = RegistryView;

    closed spec fn view(&self) -> RegistryView {
        Map::new(
            |ns: Seq<char>| windows_in(self.windows).contains_key(ns),
            |ns: Seq<char>| windows_in(self.windows)[ns]@,
        )
    }
}

impl HotspotRegistry {
    /// The configuration that the registry was made with.
    pub closed spec fn config_spec(&self) -> HotspotConfig {
        self.config
    }

    pub closed spec fn wf(&self) -> bool {
        &&& self.config.valid()
        &&& forall|ns: Seq<char>| #[trigger]
            windows_in(self.windows).contains_key(ns) ==> windows_in(self.windows)[ns].wf()
                && windows_in(self.windows)[ns].window_secs() == self.config.window_secs
    }

    /// A registry with no namespace yet.
    pub fn new(config: HotspotConfig) -> (r: HotspotRegistry)
        requires
            config.valid(),
        ensures
            r.wf(),
            r@ == RegistryView::empty(),
            r.config_spec() == config,
    {
        let r = HotspotRegistry { windows: empty_table(), config };
        assert(r@ =~= RegistryView::empty());
        r
    }

    /// The configuration that the registry was made with.
    pub fn config(&self) -> (r: &HotspotConfig)
        ensures
            *r == self.config_spec(),
    {
        &self.config
    }

    /// Handles one event on `key` in `namespace`, seen at `now`, given what the
    /// limiter said of it. An admitted event is ignored. A rejected one is a
    /// candidate: its namespace's window (made on first use) drops the records
    /// that are a full window old at `now`, and the candidate is a new hotspot
    /// exactly when its key is not left there.
    pub fn detect_at(&mut self, namespace: &str, key: &str, admission: Admission, now: i64) -> (r: Outcome)
        requires
            old(self).wf(),
        ensures
            final(self).wf(),
            final(self).config_spec() == old(self).config_spec(),
            r == detect_outcome(
                old(self)@,
                namespace@,
                key@,
                admission,
                now as int,
                old(self).config_spec().window_secs as int,
            ),
            final(self)@ == after_detect(
                old(self)@,
                namespace@,
                key@,
                admission,
                now as int,
                old(self).config_spec().window_secs as int,
            ),
    {
        if admission == Admission::Admitted {
            return Outcome::Ignored;
        }
        let ghost v0 = self@;
        let ghost t0 = windows_in(self.windows);
        let mut w = match take_window(&mut self.windows, namespace) {
            Some(w) => w,
            None => HotspotManager::new(self.config.window_secs),
        };
        assert(w@ =~= window_of(v0, namespace@));
        w.reap(now);
        assert(w@ =~= live_window(v0, namespace@, now as int, self.config.window_secs as int));
        let is_new = w.observe(key, now);
        put_window(&mut self.windows, String::from_str(namespace), w);
        proof {
            assert(windows_in(self.windows) == t0.remove(namespace@).insert(namespace@, w));
            assert(self@ =~= after_detect(
                v0,
                namespace@,
                key@,
                admission,
                now as int,
                self.config.window_secs as int,
            ));
        }
        if is_new {
            Outcome::NewHotspot
        } else {
            Outcome::AlreadyKnown
        }
    }

    /// Reaps every namespace's window at `now`.
    pub fn reap_all(&mut self, now: i64)
        requires
            old(self).wf(),
        ensures
            final(self).wf(),
            final(self).config_spec() == old(self).config_spec(),
            final(self)@ == after_reap(old(self)@, now as int, old(self).config_spec().window_secs as int),
    {
        let ghost t0 = windows_in(self.windows);
        let ghost win = self.config.window_secs as int;
        let names = table_namespaces(&self.windows);
        let ghost mut done: Set<Seq<char>> = Set::empty();
        let mut i: usize = 0;
        while i < names.len()
            invariant
                self.wf(),
                self.config == old(self).config,
                win == self.config.window_secs,
                i <= names@.len(),
                forall|ns: Seq<char>|
                    #[trigger] windows_in(self.windows).contains_key(ns) == t0.contains_key(ns),
                forall|ns: Seq<char>| #[trigger]
                    done.contains(ns) ==> t0.contains_key(ns) && windows_in(self.windows)[ns]@
                        == unexpired(t0[ns]@, now as int, win),
                forall|ns: Seq<char>|
                    t0.contains_key(ns) && !(#[trigger] done.contains(ns)) ==> windows_in(
                        self.windows,
                    )[ns] == t0[ns],
                forall|j: int| i <= j < names@.len() ==> !done.contains(#[trigger] names@[j]@),
                forall|ns: Seq<char>|
                    #[trigger] t0.contains_key(ns) ==> done.contains(ns) || exists|j: int|
                        i <= j < names@.len() && #[trigger] names@[j]@ == ns,
                forall|j: int| 0 <= j < names@.len() ==> t0.contains_key(#[trigger] names@[j]@),
                forall|a: int, b: int|
                    0 <= a < b < names@.len() ==> #[trigger] names@[a]@ != #[trigger] names@[b]@,
            decreases names@.len() - i,
        {
            let ghost ns = names@[i as int]@;
            let ghost t1 = windows_in(self.windows);
            if let Some(mut w) = take_window(&mut self.windows, names[i].as_str()) {
                w.reap(now);
                put_window(&mut self.windows, names[i].clone(), w);
                proof {
                    assert(windows_in(self.windows) == t1.remove(ns).insert(ns, w));
                }
            }
            proof {
                done = done.insert(ns);
                assert forall|j: int| i + 1 <= j < names@.len() implies !done.contains(
                    #[trigger] names@[j]@,
                ) by {
                    assert(names@[i as int]@ != names@[j]@);
                }
                assert forall|n: Seq<char>| #[trigger] t0.contains_key(n) implies done.contains(n)
                    || exists|j: int| i + 1 <= j < names@.len() && #[trigger] names@[j]@ == n by {
                    if !done.contains(n) {
                        let j = choose|j: int| i <= j < names@.len() && #[trigger] names@[j]@ == n;
                        assert(j != i);
                    }
                }
            }
            i = i + 1;
        }
        proof {
            assert(self@ =~= after_reap(old(self)@, now as int, win));
        }
    }

    /// Reaps every window at the current time of the system clock.
    pub fn auto_remove_all(&mut self)
        requires
            old(self).wf(),
        ensures
            final(self).wf(),
            final(self).config_spec() == old(self).config_spec(),
            exists|now: int|
                now >= 0 && final(self)@ == after_reap(
                    old(self)@,
                    now,
                    old(self).config_spec().window_secs as int,
                ),
    {
        let now = now_ts();
        self.reap_all(now);
    }
}

/// Handles one interest event on `key` in `namespace`: makes sure its rate-limit
/// rule is loaded, asks the limiter, and hands a candidate to its namespace's window
/// at the current time. Whatever the limiter and the clock said, the result and the
/// registry are those of `detect_at` for some admission and some time.
pub fn detect_hotspot(registry: &mut HotspotRegistry, namespace: &str, key: &str) -> (r: Outcome)
    requires
        old(registry).wf(),
    ensures
        final(registry).wf(),
        final(registry).config_spec() == old(registry).config_spec(),
        exists|admission: Admission, now: int|
            now >= 0 && r == detect_outcome(
                old(registry)@,
                namespace@,
                key@,
                admission,
                now,
                old(registry).config_spec().window_secs as int,
            ) && final(registry)@ == after_detect(
                old(registry)@,
                namespace@,
                key@,
                admission,
                now,
                old(registry).config_spec().window_secs as int,
            ),
{
    let resource = resource_id(namespace, key);
    let admission = check_admission(&resource, registry.config.threshold, registry.config.interval_ms);
    let now = now_ts();
    registry.detect_at(namespace, key, admission, now)
}

} // verus!
