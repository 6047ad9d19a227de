use vstd::prelude::*;
use crate::device::ADBDevice;
use crate::error::{ADBError, ADBResult};
use crate::text::string_views;
use rayon::iter::{IndexedParallelIterator, IntoParallelRefIterator, ParallelIterator};

verus! {

/// The ids of `items` with repeats dropped, each kept where it first occurs.
pub open spec fn distinct_spec(items: Seq<Seq<char>>) -> Seq<Seq<char>>
    decreases items.len(),
{
    if items.len() == 0 {
        Seq::empty()
    } else {
        let rest = distinct_spec(items.drop_last());
        if rest.contains(items.last()) {
            rest
        } else {
            rest.push(items.last())
        }
    }
}

/// Whether `out` is an outcome that `op` may give when run on the device `id`.
pub open spec fn ran_on<T, F: Fn(&str) -> ADBResult<T>>(op: F, id: Seq<char>, out: ADBResult<T>) -> bool {
    exists|s: &str| s@ == id && #[trigger] op.ensures((s,), out)
}

/// The views of a slice of string slices.
pub open spec fn str_views(items: Seq<&str>) -> Seq<Seq<char>> {
    items.map_values(|s: &str| s@)
}

/// One outcome per device: the result of running an operation on each member
/// of a device set, in the order in which the devices were first named.
#[derive(Debug)]
pub struct FanoutResult<T> {
    entries: Vec<(String, ADBResult<T>)>,
}

impl<T> FanoutResult<T> {
    /// The device ids, one per entry.
    pub closed spec fn keys(&self) -> Seq<Seq<char>> {
        self.entries@.map_values(|e: (String, ADBResult<T>)| e.0@)
    }

    /// The outcomes, in the order of `keys`.
    pub closed spec fn outcomes(&self) -> Seq<ADBResult<T>> {
        self.entries@.map_values(|e: (String, ADBResult<T>)| e.1)
    }

    /// The number of devices.
    pub fn len(&self) -> (r: usize)
        ensures
            r == self.keys().len(),
    {
        self.entries.len()
    }

    /// The outcome recorded for `id`, if `id` was part of the device set.
    pub fn get(&self, id: &str) -> (r: Option<&ADBResult<T>>)
        ensures
            r is None <==> !self.keys().contains(id@),
            r is Some ==> exists|i: int|
                0 <= i < self.keys().len() && self.keys()[i] == id@ && self.outcomes()[i]
                    == *r->0,
    {
        let key = id.to_owned();
        let mut i: usize = 0;
        while i < self.entries.len()
            invariant
                i <= self.entries.len(),
                key@ == id@,
                forall|j: int| 0 <= j < i ==> self.keys()[j] != id@,
            decreases self.entries.len() - i,
        {
            assert(self.keys()[i as int] == self.entries@[i as int].0@);
            if self.entries[i].0 == key {
                assert(self.keys()[i as int] == id@);
                assert(self.outcomes()[i as int] == self.entries@[i as int].1);
                return Some(&self.entries[i].1);
            }
            i = i + 1;
        }
        None
    }

    /// The device ids, in order.
    pub fn device_ids(&self) -> (r: Vec<String>)
        ensures
            string_views(r@) == self.keys(),
    {
        let mut out: Vec<String> = Vec::new();
        let mut i: usize = 0;
        while i < self.entries.len()
            invariant
                i <= self.entries.len(),
                out.len() == i,
                string_views(out@) == self.keys().subrange(0, i as int),
            decreases self.entries.len() - i,
        {
            let ghost prev = out@;
            let k = self.entries[i].0.clone();
            assert(k@ == self.keys()[i as int]);
            out.push(k);
            assert(out@ == prev.push(k));
            assert forall|j: int| 0 <= j <= i implies #[trigger] string_views(out@)[j]
                == self.keys().subrange(0, i + 1)[j] by {
                if j < i {
                    assert(string_views(prev)[j] == self.keys().subrange(0, i as int)[j]);
                    assert(out@[j] == prev[j]);
                }
            }
            i = i + 1;
            assert(string_views(out@) =~= self.keys().subrange(0, i as int));
        }
        assert(self.keys().subrange(0, i as int) =~= self.keys());
        out
    }

    /// The pairs of device id and outcome, in order.
    pub fn into_entries(self) -> (r: Vec<(String, ADBResult<T>)>)
        ensures
            r@.map_values(|e: (String, ADBResult<T>)| e.0@) == self.keys(),
            r@.map_values(|e: (String, ADBResult<T>)| e.1) == self.outcomes(),
    {
        self.entries
    }
}

/// The ids of `items` with repeats dropped, each kept where it first occurs.
pub fn distinct_ids(items: &[&str]) -> (r: Vec<String>)
    ensures
        string_views(r@) == distinct_spec(str_views(items@)),
{
    let mut all: Vec<String> = Vec::new();
    let mut i: usize = 0;
    while i < items.len()
        invariant
            i <= items.len(),
            all.len() == i,
            forall|j: int| 0 <= j < i ==> (#[trigger] all@[j])@ == items@[j]@,
        decreases items.len() - i,
    {
        all.push(items[i].to_owned());
        i = i + 1;
    }
    assert(string_views(all@) =~= str_views(items@));
    dedup_ids(&all)
}

/// `ids` with repeats dropped, each kept where it first occurs.
fn dedup_ids(ids: &Vec<String>) -> (r: Vec<String>)
    ensures
        string_views(r@) == distinct_spec(string_views(ids@)),
{
    let mut out: Vec<String> = Vec::new();
    let mut i: usize = 0;
    while i < ids.len()
        invariant
            i <= ids.len(),
            string_views(out@) == distinct_spec(string_views(ids@).subrange(0, i as int)),
        decreases ids.len() - i,
    {
        let id = ids[i].clone();
        let ghost prefix = string_views(ids@).subrange(0, i as int);
        let ghost next = string_views(ids@).subrange(0, i + 1);
        assert(next.drop_last() =~= prefix);
        assert(next.last() == id@);
        let mut seen = false;
        let mut j: usize = 0;
        while j < out.len()
            invariant
                j <= out.len(),
                seen <==> exists|k: int| 0 <= k < j && out@[k]@ == id@,
            decreases out.len() - j,
        {
            if out[j] == id {
                seen = true;
            }
            j = j + 1;
        }
        proof {
            let views = string_views(out@);
            if seen {
                let k = choose|k: int| 0 <= k < j && out@[k]@ == id@;
                assert(views[k] == id@);
            } else {
                assert forall|k: int| 0 <= k < views.len() implies views[k] != id@ by {
                    assert(out@[k]@ == views[k]);
                }
            }
        }
        if !seen {
            out.push(id);
        }
        i = i + 1;
        assert(string_views(out@) =~= distinct_spec(next));
    }
    assert(string_views(ids@).subrange(0, i as int) =~= string_views(ids@));
    out
}

/// Relies on rayon: `par_iter().map(..).collect_into_vec(..)` over the ids
/// calls `op` once per id on rayon's thread pool and keeps the results in the
/// order of the ids.
#[verifier::external_body]
fn run_parallel<T, F>(ids: &Vec<String>, op: &F) -> (r: Vec<ADBResult<T>>)
    where
        T: Send,
        F: Fn(&str) -> ADBResult<T> + Send + Sync,
    requires
        forall|s: &str| op.requires((s,)),
    ensures
        r.len() == ids.len(),
        forall|i: int| 0 <= i < ids.len() ==> ran_on(*op, ids[i]@, #[trigger] r[i]),
{
    let mut out = Vec::new();
    ids.par_iter().map(|id| op(id.as_str())).collect_into_vec(&mut out);
    out
}

/// Runs `op` once for every id of `ids`, concurrently, and pairs each id with
/// its outcome.
fn fan_out<T, F>(ids: Vec<String>, op: F) -> (r: FanoutResult<T>)
    where
        T: Send,
        F: Fn(&str) -> ADBResult<T> + Send + Sync,
    requires
        forall|s: &str| op.requires((s,)),
    ensures
        r.keys() == string_views(ids@),
        r.outcomes().len() == r.keys().len(),
        forall|i: int|
            0 <= i < r.keys().len() ==> ran_on(op, r.keys()[i], #[trigger] r.outcomes()[i]),
{
    let mut results = run_parallel(&ids, &op);
    let ghost all = results@;
    let mut entries: Vec<(String, ADBResult<T>)> = Vec::new();
    let mut i: usize = 0;
    while i < ids.len()
        invariant
            i <= ids.len(),
            all.len() == ids.len(),
            results@ == all.subrange(i as int, all.len() as int),
            entries.len() == i,
            forall|j: int| 0 <= j < i ==> (#[trigger] entries@[j]).0@ == ids@[j]@,
            forall|j: int| 0 <= j < i ==> (#[trigger] entries@[j]).1 == all[j],
        decreases ids.len() - i,
    {
        let outcome = results.remove(0);
        let id = ids[i].clone();
        assert(outcome == all[i as int]);
        let ghost before = entries@;
        entries.push((id, outcome));
        assert(entries@[i as int].0@ == ids@[i as int]@);
        assert(entries@[i as int].1 == all[i as int]);
        assert forall|j: int| 0 <= j < i implies entries@[j] == before[j] by {}
        i = i + 1;
    }
    let r = FanoutResult { entries };
    assert forall|j: int| 0 <= j < ids.len() implies #[trigger] r.keys()[j] == ids@[j]@ by {
        assert(r.keys()[j] == r.entries@[j].0@);
        assert(r.entries@[j].0@ == ids[j]@);
    }
    assert(r.keys() =~= string_views(ids@));
    assert forall|i: int| 0 <= i < r.keys().len() implies ran_on(
        op,
        r.keys()[i],
        #[trigger] r.outcomes()[i],
    ) by {
        assert(r.outcomes()[i] == r.entries@[i].1);
        assert(r.outcomes()[i] == all[i]);
        assert(r.keys()[i] == ids[i]@);
    }
    r
}

/// Runs `op` once for every distinct id of `items`, concurrently, and records
/// every outcome: one device's failure neither stops the others nor hides
/// their results.
pub fn dispatch<T, F>(items: &[&str], op: F) -> (r: FanoutResult<T>)
    where
        T: Send,
        F: Fn(&str) -> ADBResult<T> + Send + Sync,
    requires
        forall|s: &str| op.requires((s,)),
    ensures
        r.keys() == distinct_spec(str_views(items@)),
        r.outcomes().len() == r.keys().len(),
        forall|i: int|
            0 <= i < r.keys().len() ==> ran_on(op, r.keys()[i], #[trigger] r.outcomes()[i]),
{
    fan_out(distinct_ids(items), op)
}

/// The ids of the online devices of a device list, in list order.
pub open spec fn online_ids(devices: Seq<ADBDevice>) -> Seq<Seq<char>>
    decreases devices.len(),
{
    if devices.len() == 0 {
        Seq::empty()
    } else {
        let rest = online_ids(devices.drop_last());
        if devices.last().status is Online {
            rest.push(devices.last().id@)
        } else {
            rest
        }
    }
}

/// Whether `e` is the error that reports an empty set of online devices.
pub open spec fn is_no_online_devices(e: ADBError) -> bool {
    e is DeviceError && e->DeviceError_0@ == "no online devices"@
}

/// The ids of the online devices of a device list, in list order; an error
/// when none is online.
pub fn select_online(devices: &Vec<ADBDevice>) -> (r: ADBResult<Vec<String>>)
    ensures
        r is Err <==> online_ids(devices@).len() == 0,
        r is Err ==> is_no_online_devices(r->Err_0),
        r is Ok ==> string_views(r->Ok_0@) == online_ids(devices@),
{
    let mut ids: Vec<String> = Vec::new();
    let mut i: usize = 0;
    while i < devices.len()
        invariant
            i <= devices.len(),
            string_views(ids@) == online_ids(devices@.subrange(0, i as int)),
        decreases devices.len() - i,
    {
        let ghost next = devices@.subrange(0, i + 1);
        assert(next.drop_last() =~= devices@.subrange(0, i as int));
        if devices[i].is_online() {
            ids.push(devices[i].id.clone());
        }
        i = i + 1;
        assert(string_views(ids@) =~= online_ids(next));
    }
    assert(devices@.subrange(0, i as int) =~= devices@);
    if ids.len() == 0 {
        Err(ADBError::DeviceError(String::from_str("no online devices")))
    } else {
        Ok(ids)
    }
}

/// Runs `op` on every online device of a device list, concurrently, and
/// records every outcome; fails as a whole only when no device is online.
pub fn dispatch_online<T, F>(devices: &Vec<ADBDevice>, op: F) -> (r: ADBResult<FanoutResult<T>>)
    where
        T: Send,
        F: Fn(&str) -> ADBResult<T> + Send + Sync,
    requires
        forall|s: &str| op.requires((s,)),
    ensures
        r is Err <==> online_ids(devices@).len() == 0,
        r is Err ==> is_no_online_devices(r->Err_0),
        r is Ok ==> r->Ok_0.keys() == distinct_spec(online_ids(devices@)),
        r is Ok ==> r->Ok_0.outcomes().len() == r->Ok_0.keys().len(),
        r is Ok ==> forall|i: int|
            0 <= i < r->Ok_0.keys().len() ==> ran_on(
                op,
                r->Ok_0.keys()[i],
                #[trigger] r->Ok_0.outcomes()[i],
            ),
{
    match select_online(devices) {
        Ok(ids) => Ok(fan_out(dedup_ids(&ids), op)),
        Err(e) => Err(e),
    }
}

} // verus!

verus! {

/// Every requested device appears in a fan-out exactly once: the ids kept
/// hold no repeats, and they are exactly the ids requested.
pub proof fn law_fanout_covers_inputs(items: Seq<Seq<char>>)
    ensures
        distinct_spec(items).no_duplicates(),
        distinct_spec(items).to_set() == items.to_set(),
    decreases items.len(),
{
    if items.len() > 0 {
        let rest = items.drop_last();
        law_fanout_covers_inputs(rest);
        assert(items =~= rest.push(items.last()));
        let d = distinct_spec(rest);
        if d.contains(items.last()) {
            assert(d.to_set().contains(items.last()));
        } else {
            assert(d.push(items.last()).no_duplicates());
        }
        assert(distinct_spec(items).to_set() =~= items.to_set()) by {
            assert forall|x: Seq<char>| #[trigger] items.to_set().contains(x)
                <==> distinct_spec(items).to_set().contains(x) by {
                if items.to_set().contains(x) {
                    let i = choose|i: int| 0 <= i < items.len() && items[i] == x;
                    if i < rest.len() {
                        assert(rest[i] == x);
                        assert(rest.to_set().contains(x));
                        assert(d.to_set().contains(x));
                        let k = choose|k: int| 0 <= k < d.len() && d[k] == x;
                        assert(distinct_spec(items)[k] == x);
                    } else if d.contains(x) {
                        let k = choose|k: int| 0 <= k < d.len() && d[k] == x;
                        assert(distinct_spec(items)[k] == x);
                    } else {
                        assert(distinct_spec(items)[d.len() as int] == x);
                    }
                }
                if distinct_spec(items).to_set().contains(x) {
                    if x != items.last() {
                        assert(d.to_set().contains(x));
                        assert(rest.to_set().contains(x));
                        let i = choose|i: int| 0 <= i < rest.len() && rest[i] == x;
                        assert(items[i] == x);
                    } else {
                        assert(items[items.len() - 1] == x);
                    }
                }
            }
        }
    } else {
        assert(items.to_set() =~= Set::empty());
        assert(distinct_spec(items).to_set() =~= Set::empty());
    }
}

} // verus!
