use vstd::prelude::*;
use crate::loadtest::LoadTestMonitoringData;
use crate::tasks::MonitoringData;

verus! {

/// A table from names to values with one entry per name. It backs the
/// monitoring store's two namespaces; its contents are the mathematical map
/// from name to value.
pub struct NameTable<V> {
    entries: Vec<(String, V)>,
}

/// The map an entry list denotes: later entries would override earlier ones,
/// though a well-formed table never carries a name twice.
pub open spec fn entries_map<V>(s: Seq<(String, V)>) -> Map<Seq<char>, V>
    decreases s.len(),
{
    if s.len() == 0 {
        Map::empty()
    } else {
        entries_map(s.drop_last()).insert(s.last().0@, s.last().1)
    }
}

proof fn lemma_entries_map_absent<V>(s: Seq<(String, V)>, k: Seq<char>)
    requires
        forall|i: int| 0 <= i < s.len() ==> (#[trigger] s[i]).0@ != k,
    ensures
        !entries_map(s).contains_key(k),
    decreases s.len(),
{
    if s.len() > 0 {
        assert(s.last() == s[s.len() - 1]);
        lemma_entries_map_absent(s.drop_last(), k);
    }
}

proof fn lemma_entries_map_at<V>(s: Seq<(String, V)>, j: int)
    requires
        0 <= j < s.len(),
        forall|p: int, q: int| 0 <= p < q < s.len() ==> (#[trigger] s[p]).0@ != (#[trigger] s[q]).0@,
    ensures
        entries_map(s).contains_key(s[j].0@),
        entries_map(s)[s[j].0@] == s[j].1,
    decreases s.len(),
{
    if j == s.len() - 1 {
        assert(s.last() == s[j]);
    } else {
        lemma_entries_map_at(s.drop_last(), j);
        assert(s.drop_last()[j] == s[j]);
        assert(s.last() == s[s.len() - 1]);
        assert(s[j].0@ != s[s.len() - 1].0@);
    }
}

impl<V> NameTable<V> {
    /// The table as a mathematical map.
    pub closed spec fn view(&self) -> Map<Seq<char>, V> {
        entries_map(self.entries@)
    }

    /// Each name appears at most once.
    pub closed spec fn wf(&self) -> bool {
        forall|p: int, q: int|
            0 <= p < q < self.entries@.len() ==> (#[trigger] self.entries@[p]).0@ != (
            #[trigger] self.entries@[q]).0@
    }

    /// An empty table.
    pub fn new() -> (r: Self)
        ensures
            r.wf(),
            r.view() == Map::<Seq<char>, V>::empty(),
    {
        NameTable { entries: Vec::new() }
    }

    /// How many names the table holds.
    pub fn len(&self) -> (r: usize)
        requires
            self.wf(),
        ensures
            r == self.view().dom().len(),
    {
        proof {
            Self::lemma_entries_map_len(self.entries@);
        }
        self.entries.len()
    }

    proof fn lemma_entries_map_len(s: Seq<(String, V)>)
        requires
            forall|p: int, q: int|
                0 <= p < q < s.len() ==> (#[trigger] s[p]).0@ != (#[trigger] s[q]).0@,
        ensures
            entries_map(s).dom().finite(),
            entries_map(s).dom().len() == s.len(),
        decreases s.len(),
    {
        if s.len() > 0 {
            Self::lemma_entries_map_len(s.drop_last());
            lemma_entries_map_absent(s.drop_last(), s.last().0@);
            assert(s.last() == s[s.len() - 1]);
            assert(entries_map(s).dom() =~= entries_map(s.drop_last()).dom().insert(s.last().0@));
            vstd::set::axiom_set_insert_len(entries_map(s.drop_last()).dom(), s.last().0@);
        } else {
            assert(entries_map(s).dom() =~= Set::<Seq<char>>::empty());
        }
    }

    /// The entry at a position: its name and value, as the map relates them.
    pub fn entry_at(&self, i: usize) -> (r: (&String, &V))
        requires
            self.wf(),
            i < self.view().dom().len(),
        ensures
            self.view().contains_key(r.0@),
            self.view()[r.0@] == *r.1,
    {
        proof {
            Self::lemma_entries_map_len(self.entries@);
            lemma_entries_map_at(self.entries@, i as int);
        }
        let entry = &self.entries[i];
        (&entry.0, &entry.1)
    }

    /// Looks a name up.
    pub fn get(&self, name: &String) -> (r: Option<&V>)
        requires
            self.wf(),
        ensures
            match r {
                Some(v) => self.view().contains_key(name@) && *v == self.view()[name@],
                None => !self.view().contains_key(name@),
            },
    {
        let n = self.entries.len();
        let mut i: usize = 0;
        while i < n
            invariant
                0 <= i <= n,
                n == self.entries@.len(),
                self.wf(),
                forall|k: int| 0 <= k < i ==> (#[trigger] self.entries@[k]).0@ != name@,
            decreases n - i,
        {
            if self.entries[i].0 == *name {
                proof {
                    lemma_entries_map_at(self.entries@, i as int);
                }
                return Some(&self.entries[i].1);
            }
            i = i + 1;
        }
        proof {
            lemma_entries_map_absent(self.entries@, name@);
        }
        None
    }

    /// Takes a name's value out of the table, if it is there.
    pub fn remove(&mut self, name: &String) -> (r: Option<V>)
        requires
            old(self).wf(),
        ensures
            final(self).wf(),
            final(self).view() == old(self).view().remove(name@),
            match r {
                Some(v) => old(self).view().contains_key(name@) && v == old(self).view()[name@],
                None => !old(self).view().contains_key(name@),
            },
    {
        let n = self.entries.len();
        let mut i: usize = 0;
        while i < n
            invariant
                0 <= i <= n,
                n == self.entries@.len(),
                self == old(self),
                old(self).wf(),
                forall|k: int| 0 <= k < i ==> (#[trigger] self.entries@[k]).0@ != name@,
            decreases n - i,
        {
            if self.entries[i].0 == *name {
                proof {
                    lemma_entries_map_at(self.entries@, i as int);
                }
                let ghost prev = self.entries@;
                let entry = self.entries.remove(i);
                proof {
                    Self::lemma_entries_map_remove(prev, i as int);
                }
                return Some(entry.1);
            }
            i = i + 1;
        }
        proof {
            lemma_entries_map_absent(self.entries@, name@);
            assert(old(self).view().remove(name@) =~= old(self).view());
        }
        None
    }

    proof fn lemma_entries_map_remove(s: Seq<(String, V)>, j: int)
        requires
            0 <= j < s.len(),
            forall|p: int, q: int|
                0 <= p < q < s.len() ==> (#[trigger] s[p]).0@ != (#[trigger] s[q]).0@,
        ensures
            forall|p: int, q: int|
                0 <= p < q < s.remove(j).len() ==> (#[trigger] s.remove(j)[p]).0@ != (
                #[trigger] s.remove(j)[q]).0@,
            entries_map(s.remove(j)) == entries_map(s).remove(s[j].0@),
        decreases s.len(),
    {
        assert(s.last() == s[s.len() - 1]);
        if j == s.len() - 1 {
            assert(s.remove(j) =~= s.drop_last());
            lemma_entries_map_absent(s.drop_last(), s[j].0@);
            assert(entries_map(s.drop_last()) =~= entries_map(s).remove(s[j].0@));
        } else {
            assert(s.remove(j).last() == s.last());
            assert(s.remove(j).drop_last() =~= s.drop_last().remove(j));
            assert(s.drop_last()[j] == s[j]);
            Self::lemma_entries_map_remove(s.drop_last(), j);
            assert(s[j].0@ != s.last().0@);
            assert(entries_map(s.drop_last().remove(j)).insert(s.last().0@, s.last().1)
                =~= entries_map(s).remove(s[j].0@));
        }
    }

    /// Puts a value under a name, replacing what was there.
    pub fn insert(&mut self, name: String, value: V)
        requires
            old(self).wf(),
        ensures
            final(self).wf(),
            final(self).view() == old(self).view().insert(name@, value),
    {
        let _ = self.remove(&name);
        let ghost prev = self.entries@;
        proof {
            lemma_entries_map_absent_from_removed(prev, name@, old(self).view());
        }
        self.entries.push((name, value));
        proof {
            assert(self.entries@.drop_last() =~= prev);
            assert(self.entries@.last() == (self.entries@[self.entries@.len() - 1]));
            assert(self.view() =~= old(self).view().insert(
                self.entries@.last().0@,
                self.entries@.last().1,
            ));
        }
    }
}

/// After a name is removed, no entry carries it; pushing it back is then the
/// plain map insert.
proof fn lemma_entries_map_absent_from_removed<V>(
    s: Seq<(String, V)>,
    k: Seq<char>,
    m: Map<Seq<char>, V>,
)
    requires
        entries_map(s) == m.remove(k),
        forall|p: int, q: int| 0 <= p < q < s.len() ==> (#[trigger] s[p]).0@ != (#[trigger] s[q]).0@,
    ensures
        forall|i: int| 0 <= i < s.len() ==> (#[trigger] s[i]).0@ != k,
{
    assert forall|i: int| 0 <= i < s.len() implies (#[trigger] s[i]).0@ != k by {
        lemma_entries_map_at(s, i);
        assert(entries_map(s).contains_key(s[i].0@));
        assert(!m.remove(k).contains_key(k));
    }
}

/// What a two-level metrics map holds at a (workflow, step) key.
pub open spec fn metric_at<M>(
    m: Map<Seq<char>, Map<Seq<char>, M>>,
    workflow: Seq<char>,
    step: Seq<char>,
) -> Option<M> {
    if m.contains_key(workflow) && m[workflow].contains_key(step) {
        Some(m[workflow][step])
    } else {
        None
    }
}

/// A two-level metrics map after one record is written: the record replaces
/// whatever stood under its (workflow, step) key and nothing else moves.
pub open spec fn upsert_metric<M>(
    m: Map<Seq<char>, Map<Seq<char>, M>>,
    workflow: Seq<char>,
    step: Seq<char>,
    data: M,
) -> Map<Seq<char>, Map<Seq<char>, M>> {
    let inner = if m.contains_key(workflow) {
        m[workflow]
    } else {
        Map::empty()
    };
    m.insert(workflow, inner.insert(step, data))
}

/// One write touches exactly its own key: afterwards the written record is
/// what stands at (workflow, step), and every other (workflow', step') reads
/// as before.
pub proof fn lemma_upsert_isolated<M>(
    m: Map<Seq<char>, Map<Seq<char>, M>>,
    workflow: Seq<char>,
    step: Seq<char>,
    data: M,
)
    ensures
        metric_at(upsert_metric(m, workflow, step, data), workflow, step) == Some(data),
        forall|w: Seq<char>, s: Seq<char>|
            w != workflow || s != step ==> #[trigger] metric_at(
                upsert_metric(m, workflow, step, data),
                w,
                s,
            ) == metric_at(m, w, s),
{
}

/// Two writers of distinct (workflow, step) keys never lose each other's
/// update: after both writes, each record is visible under its own key.
pub proof fn lemma_no_lost_updates<M>(
    m: Map<Seq<char>, Map<Seq<char>, M>>,
    w1: Seq<char>,
    s1: Seq<char>,
    d1: M,
    w2: Seq<char>,
    s2: Seq<char>,
    d2: M,
)
    requires
        w1 != w2 || s1 != s2,
    ensures
        metric_at(upsert_metric(upsert_metric(m, w1, s1, d1), w2, s2, d2), w1, s1) == Some(d1),
        metric_at(upsert_metric(upsert_metric(m, w1, s1, d1), w2, s2, d2), w2, s2) == Some(d2),
{
    lemma_upsert_isolated(m, w1, s1, d1);
    lemma_upsert_isolated(upsert_metric(m, w1, s1, d1), w2, s2, d2);
}

/// The shared application state: the latest plain and load-test metrics of
/// every (workflow, step) pair, and whether a monitoring session is running.
/// The surrounding runtime wraps it in one mutual-exclusion region and calls
/// only these operations, each of which is atomic under that lock.
pub struct AppState {
    monitoring_started: bool,
    load_test_monitoring_data: NameTable<NameTable<LoadTestMonitoringData>>,
    task_monitoring_data: NameTable<NameTable<MonitoringData>>,
}

impl AppState {
    /// Whether a monitoring session has been started and not yet read out.
    pub closed spec fn session_active(&self) -> bool {
        self.monitoring_started
    }

    /// Reads the session flag.
    pub fn is_session_active(&self) -> (r: bool)
        ensures
            r == self.session_active(),
    {
        self.monitoring_started
    }

    /// Both namespaces are well-formed tables of well-formed tables.
    pub closed spec fn wf(&self) -> bool {
        &&& self.load_test_monitoring_data.wf()
        &&& forall|k: Seq<char>|
            self.load_test_monitoring_data@.contains_key(k)
                ==> (#[trigger] self.load_test_monitoring_data@[k]).wf()
        &&& self.task_monitoring_data.wf()
        &&& forall|k: Seq<char>|
            self.task_monitoring_data@.contains_key(k)
                ==> (#[trigger] self.task_monitoring_data@[k]).wf()
    }

    /// The plain-monitoring namespace: workflow name, then step name, to the
    /// step's latest record.
    pub closed spec fn task_view(&self) -> Map<Seq<char>, Map<Seq<char>, MonitoringData>> {
        self.task_monitoring_data@.map_values(|t: NameTable<MonitoringData>| t@)
    }

    /// The load-test namespace: workflow name, then step name, to the step's
    /// latest campaign metrics.
    pub closed spec fn load_test_view(&self) -> Map<
        Seq<char>,
        Map<Seq<char>, LoadTestMonitoringData>,
    > {
        self.load_test_monitoring_data@.map_values(|t: NameTable<LoadTestMonitoringData>| t@)
    }

    /// A fresh state: no session running, both namespaces empty.
    pub fn new() -> (r: Self)
        ensures
            r.wf(),
            !r.session_active(),
            r.task_view() == Map::<Seq<char>, Map<Seq<char>, MonitoringData>>::empty(),
            r.load_test_view() == Map::<Seq<char>, Map<Seq<char>, LoadTestMonitoringData>>::empty(),
    {
        let r = AppState {
            monitoring_started: false,
            load_test_monitoring_data: NameTable::new(),
            task_monitoring_data: NameTable::new(),
        };
        proof {
            assert(r.task_view() =~= Map::<Seq<char>, Map<Seq<char>, MonitoringData>>::empty());
            assert(r.load_test_view() =~= Map::<
                Seq<char>,
                Map<Seq<char>, LoadTestMonitoringData>,
            >::empty());
        }
        r
    }

    /// Claims the session flag atomically: returns whether this caller won
    /// the claim; the flag is set afterwards either way, and no metrics move.
    pub fn claim_session(&mut self) -> (r: bool)
        requires
            old(self).wf(),
        ensures
            final(self).wf(),
            final(self).session_active(),
            r == !old(self).session_active(),
            final(self).task_view() == old(self).task_view(),
            final(self).load_test_view() == old(self).load_test_view(),
    {
        let won = !self.monitoring_started;
        self.monitoring_started = true;
        won
    }

    /// Clears the session flag after a read of the results; no metrics move.
    pub fn finish_session_read(&mut self)
        requires
            old(self).wf(),
        ensures
            final(self).wf(),
            !final(self).session_active(),
            final(self).task_view() == old(self).task_view(),
            final(self).load_test_view() == old(self).load_test_view(),
    {
        self.monitoring_started = false;
    }

    /// Writes one step's plain-monitoring record, replacing whatever stood
    /// under (workflow, step); every other key and the load-test namespace
    /// keep their records.
    pub fn upsert_task_metric(
        &mut self,
        workflow_name: &String,
        task_name: String,
        data: MonitoringData,
    )
        requires
            old(self).wf(),
        ensures
            final(self).wf(),
            final(self).task_view() == upsert_metric(
                old(self).task_view(),
                workflow_name@,
                task_name@,
                data,
            ),
            final(self).load_test_view() == old(self).load_test_view(),
            final(self).session_active() == old(self).session_active(),
    {
        let mut inner = match self.task_monitoring_data.remove(workflow_name) {
            Some(t) => t,
            None => NameTable::new(),
        };
        inner.insert(task_name, data);
        self.task_monitoring_data.insert(workflow_name.clone(), inner);
        proof {
            assert(final(self).task_view() =~= upsert_metric(
                old(self).task_view(),
                workflow_name@,
                task_name@,
                data,
            ));
            assert(final(self).load_test_view() =~= old(self).load_test_view());
        }
    }

    /// Writes one step's load-test metrics, replacing whatever stood under
    /// (workflow, step); every other key and the plain namespace keep their
    /// records.
    pub fn upsert_load_test_metric(
        &mut self,
        workflow_name: &String,
        task_name: String,
        data: LoadTestMonitoringData,
    )
        requires
            old(self).wf(),
        ensures
            final(self).wf(),
            final(self).load_test_view() == upsert_metric(
                old(self).load_test_view(),
                workflow_name@,
                task_name@,
                data,
            ),
            final(self).task_view() == old(self).task_view(),
            final(self).session_active() == old(self).session_active(),
    {
        let mut inner = match self.load_test_monitoring_data.remove(workflow_name) {
            Some(t) => t,
            None => NameTable::new(),
        };
        inner.insert(task_name, data);
        self.load_test_monitoring_data.insert(workflow_name.clone(), inner);
        proof {
            assert(final(self).load_test_view() =~= upsert_metric(
                old(self).load_test_view(),
                workflow_name@,
                task_name@,
                data,
            ));
            assert(final(self).task_view() =~= old(self).task_view());
        }
    }

    /// Borrows the plain-monitoring namespace, for a reader that walks all
    /// of it.
    pub fn task_data(&self) -> (r: &NameTable<NameTable<MonitoringData>>)
        requires
            self.wf(),
        ensures
            r.wf(),
            forall|k: Seq<char>| r@.contains_key(k) ==> (#[trigger] r@[k]).wf(),
            r@.map_values(|t: NameTable<MonitoringData>| t@) == self.task_view(),
    {
        &self.task_monitoring_data
    }

    /// Borrows the load-test namespace, for a reader that walks all of it.
    pub fn load_test_data(&self) -> (r: &NameTable<NameTable<LoadTestMonitoringData>>)
        requires
            self.wf(),
        ensures
            r.wf(),
            forall|k: Seq<char>| r@.contains_key(k) ==> (#[trigger] r@[k]).wf(),
            r@.map_values(|t: NameTable<LoadTestMonitoringData>| t@) == self.load_test_view(),
    {
        &self.load_test_monitoring_data
    }

    /// Reads one step's plain-monitoring record.
    pub fn get_task_metric(&self, workflow_name: &String, task_name: &String) -> (r: Option<
        &MonitoringData,
    >)
        requires
            self.wf(),
        ensures
            match r {
                Some(d) => metric_at(self.task_view(), workflow_name@, task_name@) == Some(*d),
                None => metric_at(self.task_view(), workflow_name@, task_name@) is None,
            },
    {
        match self.task_monitoring_data.get(workflow_name) {
            Some(inner) => inner.get(task_name),
            None => None,
        }
    }

    /// Reads one step's load-test metrics.
    pub fn get_load_test_metric(&self, workflow_name: &String, task_name: &String) -> (r: Option<
        &LoadTestMonitoringData,
    >)
        requires
            self.wf(),
        ensures
            match r {
                Some(d) => metric_at(self.load_test_view(), workflow_name@, task_name@) == Some(
                    *d,
                ),
                None => metric_at(self.load_test_view(), workflow_name@, task_name@) is None,
            },
    {
        match self.load_test_monitoring_data.get(workflow_name) {
            Some(inner) => inner.get(task_name),
            None => None,
        }
    }
}

} // verus!
