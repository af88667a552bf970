//! Which warm-state snapshots a run or a conversion considers, and in which
//! order.
//!
//! A snapshot is known by its time and by its position in the listing it was
//! found in; ties in time keep the listing order.

use vstd::prelude::*;
use vstd::string::StrSliceExecFns;

use crate::text::chars_of;
use crate::timeline::{parse_minutes_stamp, parsed_utc};

verus! {

broadcast use vstd::string::group_string_axioms;

/// Whether `a` is ordered before `b`: by time, newest or oldest first, then by
/// listing position.
pub open spec fn comes_before(a: (i64, usize), b: (i64, usize), newest_first: bool) -> bool {
    if a.0 == b.0 {
        a.1 < b.1
    } else if newest_first {
        a.0 > b.0
    } else {
        a.0 < b.0
    }
}

pub open spec fn sorted_by_time(s: Seq<(i64, usize)>, newest_first: bool) -> bool {
    forall|i: int, j: int| 0 <= i < j < s.len() ==> comes_before(#[trigger] s[i], #[trigger] s[j], newest_first)
}

pub open spec fn positions_increase(s: Seq<(i64, usize)>) -> bool {
    forall|i: int, j: int| 0 <= i < j < s.len() ==> (#[trigger] s[i]).1 < (#[trigger] s[j]).1
}

/// The entries in time order, newest or oldest first; entries of equal time
/// keep their order.
pub fn order_by_time(entries: &Vec<(i64, usize)>, newest_first: bool) -> (ordered: Vec<(i64, usize)>)
    requires
        positions_increase(entries@),
    ensures
        ordered@.len() == entries@.len(),
        sorted_by_time(ordered@, newest_first),
        forall|x: (i64, usize)| ordered@.contains(x) <==> entries@.contains(x),
{
    let mut ordered: Vec<(i64, usize)> = Vec::new();
    let mut i: usize = 0;
    while i < entries.len()
        invariant
            i <= entries@.len(),
            positions_increase(entries@),
            ordered@.len() == i,
            sorted_by_time(ordered@, newest_first),
            forall|x: (i64, usize)| ordered@.contains(x) <==> entries@.take(i as int).contains(x),
        decreases entries@.len() - i,
    {
        let entry = entries[i];
        proof {
            assert forall|k: int| 0 <= k < ordered@.len() implies (#[trigger] ordered@[k]).1 < entry.1 by {
                assert(ordered@.contains(ordered@[k]));
                let j = choose|j: int| 0 <= j < i && entries@.take(i as int)[j] == ordered@[k];
                assert(entries@[j] == ordered@[k]);
            }
        }
        let mut p: usize = 0;
        while p < ordered.len() && comes_first(ordered[p], entry, newest_first)
            invariant
                p <= ordered@.len(),
                forall|k: int| 0 <= k < p ==> comes_before(#[trigger] ordered@[k], entry, newest_first),
            decreases ordered@.len() - p,
        {
            p += 1;
        }
        let ghost before = ordered@;
        ordered.insert(p, entry);
        proof {
            assert(ordered@ == before.insert(p as int, entry));
            assert forall|a: int, b: int| 0 <= a < b < ordered@.len() implies
                comes_before(#[trigger] ordered@[a], #[trigger] ordered@[b], newest_first) by {
                if b < p {
                    assert(ordered@[a] == before[a] && ordered@[b] == before[b]);
                } else if b == p {
                    assert(ordered@[a] == before[a]);
                } else if a == p {
                    assert(ordered@[b] == before[b - 1]);
                    assert(!comes_before(before[p as int], entry, newest_first));
                    if b - 1 > p {
                        assert(comes_before(before[p as int], before[b - 1], newest_first));
                    }
                } else if a < p {
                    assert(ordered@[a] == before[a] && ordered@[b] == before[b - 1]);
                } else {
                    assert(ordered@[a] == before[a - 1] && ordered@[b] == before[b - 1]);
                }
            }
            let next = entries@.take(i + 1);
            let prev = entries@.take(i as int);
            assert(next =~= prev.push(entry));
            lemma_insert_contains(before, p as int, entry);
            lemma_push_contains(prev, entry);
        }
        i += 1;
    }
    proof {
        assert(entries@.take(i as int) =~= entries@);
    }
    ordered
}

proof fn lemma_push_contains<A>(s: Seq<A>, e: A)
    ensures
        forall|x: A| #[trigger] s.push(e).contains(x) <==> (s.contains(x) || x == e),
{
    assert forall|x: A| #[trigger] s.push(e).contains(x) implies (s.contains(x) || x == e) by {
        let j = choose|j: int| 0 <= j < s.push(e).len() && s.push(e)[j] == x;
        if j < s.len() {
            assert(s[j] == x);
        }
    }
    assert forall|x: A| s.contains(x) || x == e implies #[trigger] s.push(e).contains(x) by {
        if s.contains(x) {
            let j = choose|j: int| 0 <= j < s.len() && s[j] == x;
            assert(s.push(e)[j] == x);
        } else {
            assert(s.push(e)[s.len() as int] == x);
        }
    }
}

proof fn lemma_insert_contains<A>(s: Seq<A>, p: int, e: A)
    requires
        0 <= p <= s.len(),
    ensures
        forall|x: A| #[trigger] s.insert(p, e).contains(x) <==> (s.contains(x) || x == e),
{
    let t = s.insert(p, e);
    assert forall|x: A| #[trigger] s.insert(p, e).contains(x) implies (s.contains(x) || x == e) by {
        let j = choose|j: int| 0 <= j < t.len() && t[j] == x;
        if j < p {
            assert(s[j] == x);
        } else if j > p {
            assert(s[j - 1] == x);
        }
    }
    assert forall|x: A| s.contains(x) || x == e implies #[trigger] s.insert(p, e).contains(x) by {
        if s.contains(x) {
            let j = choose|j: int| 0 <= j < s.len() && s[j] == x;
            if j < p {
                assert(t[j] == x);
            } else {
                assert(t[j + 1] == x);
            }
        } else {
            assert(t[p] == x);
        }
    }
}

fn comes_first(a: (i64, usize), b: (i64, usize), newest_first: bool) -> (first: bool)
    ensures
        first == comes_before(a, b, newest_first),
{
    if a.0 == b.0 {
        a.1 < b.1
    } else if newest_first {
        a.0 > b.0
    } else {
        a.0 < b.0
    }
}

/// Whether a snapshot taken at `time` may seed a run at `run_date`: not after
/// the run and at most `max_age_hours` before it.
pub open spec fn within_window(time: int, run_date: int, max_age_hours: int) -> bool {
    time <= run_date && time >= run_date - max_age_hours * 3600
}

/// The snapshots that may seed the run, newest first.
///
/// `times[k]` is the time of the `k`-th file listed, or `None` where the file
/// could not be read as a snapshot.
pub fn snapshot_candidates(times: &Vec<Option<i64>>, run_date: i64, max_age_hours: i64) -> (order: Vec<(i64, usize)>)
    requires
        i64::MIN <= max_age_hours * 3600 <= i64::MAX,
        i64::MIN <= run_date - max_age_hours * 3600 <= i64::MAX,
    ensures
        sorted_by_time(order@, true),
        forall|x: (i64, usize)| order@.contains(x) <==> (x.1 < times@.len() && times@[x.1 as int] == Some(x.0)
            && within_window(x.0 as int, run_date as int, max_age_hours as int)),
{
    let oldest: i64 = run_date - max_age_hours * 3600;
    let mut entries: Vec<(i64, usize)> = Vec::new();
    let mut k: usize = 0;
    while k < times.len()
        invariant
            k <= times@.len(),
            oldest == run_date - max_age_hours * 3600,
            positions_increase(entries@),
            forall|j: int| 0 <= j < entries@.len() ==> (#[trigger] entries@[j]).1 < k,
            forall|x: (i64, usize)| entries@.contains(x) <==> (x.1 < k && times@[x.1 as int] == Some(x.0)
                && within_window(x.0 as int, run_date as int, max_age_hours as int)),
        decreases times@.len() - k,
    {
        if let Some(time) = times[k] {
            if time <= run_date && time >= oldest {
                let ghost before = entries@;
                entries.push((time, k));
                proof {
                    lemma_push_contains(before, (time, k));
                }
            }
        }
        k += 1;
    }
    order_by_time(&entries, true)
}

/// `name` without `prefix`, when it starts with it.
pub fn strip_prefix<'a>(name: &'a str, prefix: &str) -> (rest: Option<&'a str>)
    ensures
        match rest {
            Some(r) => prefix@.len() <= name@.len() && name@.take(prefix@.len() as int) == prefix@
                && r@ == name@.skip(prefix@.len() as int),
            None => !(prefix@.len() <= name@.len() && name@.take(prefix@.len() as int) == prefix@),
        },
{
    let name_chars = chars_of(name);
    let prefix_chars = chars_of(prefix);
    if prefix_chars.len() > name_chars.len() {
        return None;
    }
    let mut k: usize = 0;
    while k < prefix_chars.len()
        invariant
            prefix_chars@ == prefix@,
            name_chars@ == name@,
            prefix@.len() <= name@.len(),
            k <= prefix@.len(),
            forall|j: int| 0 <= j < k ==> name@[j] == prefix@[j],
        decreases prefix@.len() - k,
    {
        if name_chars[k] != prefix_chars[k] {
            proof {
                assert(name@.take(prefix@.len() as int)[k as int] != prefix@[k as int]);
            }
            return None;
        }
        k += 1;
    }
    proof {
        assert(name@.take(prefix@.len() as int) =~= prefix@);
    }
    let rest = name.substring_char(prefix_chars.len(), name_chars.len());
    proof {
        assert(rest@ =~= name@.skip(prefix@.len() as int));
    }
    Some(rest)
}

/// Why no legacy snapshot could be selected.
#[derive(Clone, Copy, Debug, PartialEq, Eq, Structural)]
pub enum DiscoveryError {
    /// No listed file carries the prefix followed by a minute stamp.
    NoSnapshots,
}

/// The time of a legacy file named `name`: the minute stamp after `prefix`.
pub open spec fn legacy_time(name: Seq<char>, prefix: Seq<char>) -> Option<i64> {
    if prefix.len() <= name.len() && name.take(prefix.len() as int) == prefix {
        parsed_utc(name.skip(prefix.len() as int), "%Y%m%d%H%M"@)
    } else {
        None
    }
}

/// The legacy warm-state files among `names` (the regular files of the
/// directory, in listing order), oldest first, with their times.
pub fn legacy_snapshots(names: &Vec<String>, prefix: &str) -> (result: Result<Vec<(i64, usize)>, DiscoveryError>)
    ensures
        match result {
            Ok(order) => {
                &&& order@.len() > 0
                &&& sorted_by_time(order@, false)
                &&& forall|x: (i64, usize)| order@.contains(x) <==> (x.1 < names@.len()
                    && legacy_time(names@[x.1 as int]@, prefix@) == Some(x.0))
            },
            Err(_) => forall|k: int| 0 <= k < names@.len() ==> legacy_time(#[trigger] names@[k]@, prefix@) is None,
        },
{
    let mut entries: Vec<(i64, usize)> = Vec::new();
    let mut k: usize = 0;
    while k < names.len()
        invariant
            k <= names@.len(),
            positions_increase(entries@),
            forall|j: int| 0 <= j < entries@.len() ==> (#[trigger] entries@[j]).1 < k,
            forall|x: (i64, usize)| entries@.contains(x) <==> (x.1 < k
                && legacy_time(names@[x.1 as int]@, prefix@) == Some(x.0)),
        decreases names@.len() - k,
    {
        let stamp = strip_prefix(names[k].as_str(), prefix);
        let time = match stamp {
            None => None,
            Some(rest) => parse_minutes_stamp(rest),
        };
        assert(time == legacy_time(names@[k as int]@, prefix@));
        if let Some(t) = time {
            let ghost before = entries@;
            entries.push((t, k));
            proof {
                lemma_push_contains(before, (t, k));
            }
        }
        k += 1;
    }
    if entries.len() == 0 {
        proof {
            assert forall|k: int| 0 <= k < names@.len() implies legacy_time(#[trigger] names@[k]@, prefix@) is None by {
                if legacy_time(names@[k]@, prefix@) is Some {
                    let t = legacy_time(names@[k]@, prefix@)->0;
                    assert(entries@.contains((t, k as usize)));
                }
            }
        }
        return Err(DiscoveryError::NoSnapshots);
    }
    let order = order_by_time(&entries, false);
    Ok(order)
}

/// The snapshots to convert: all of them, or only the newest.
pub fn select_snapshots(order: Vec<(i64, usize)>, latest_only: bool) -> (selected: Vec<(i64, usize)>)
    ensures
        !latest_only ==> selected@ == order@,
        latest_only ==> selected@ == (if order@.len() == 0 { Seq::empty() } else { seq![order@.last()] }),
{
    if !latest_only || order.len() == 0 {
        if latest_only {
            proof {
                assert(order@ =~= Seq::<(i64, usize)>::empty());
            }
        }
        return order;
    }
    let last = order[order.len() - 1];
    let mut selected: Vec<(i64, usize)> = Vec::new();
    selected.push(last);
    proof {
        assert(selected@ =~= seq![order@.last()]);
    }
    selected
}

} // verus!
