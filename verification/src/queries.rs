//! Read-side aggregate queries over the persisted intervals.
//!
//! These run against a [`UsageLog`] and need no engine state: a total per
//! app, a total per time window, and the per-app totals list a dashboard
//! shows. A window `[start, end)` selects a record by its recorded start
//! time. Totals clamp at `u64::MAX` instead of wrapping.

use vstd::prelude::*;

use crate::recorder::IntervalModel;
use crate::recorder::UsageLog;

verus! {

/// Whether a record's start lies in an optional `[start, end)` window
/// (no window selects everything).
pub open spec fn in_window(iv: IntervalModel, window: Option<(u64, u64)>) -> bool {
    match window {
        Some(w) => w.0 <= iv.start_time < w.1,
        None => true,
    }
}

/// Whether a record is selected by an optional app filter and an optional
/// time window.
pub open spec fn matches_filter(
    iv: IntervalModel,
    app: Option<Seq<char>>,
    window: Option<(u64, u64)>,
) -> bool {
    &&& match app {
        Some(name) => iv.app_name == name,
        None => true,
    }
    &&& in_window(iv, window)
}

/// Addition that clamps at the maximum instead of wrapping.
pub open spec fn sat_add(a: u64, b: u64) -> u64 {
    if a + b > u64::MAX {
        u64::MAX
    } else {
        (a + b) as u64
    }
}

/// The clamped total duration of every selected record.
pub open spec fn total_duration(
    ivs: Seq<IntervalModel>,
    app: Option<Seq<char>>,
    window: Option<(u64, u64)>,
) -> u64
    decreases ivs.len(),
{
    if ivs.len() == 0 {
        0
    } else {
        let rest = total_duration(ivs.drop_last(), app, window);
        if matches_filter(ivs.last(), app, window) {
            sat_add(rest, ivs.last().duration)
        } else {
            rest
        }
    }
}

/// Whether some record for `app` falls in the window.
pub open spec fn app_present(
    ivs: Seq<IntervalModel>,
    app: Seq<char>,
    window: Option<(u64, u64)>,
) -> bool {
    exists|i: int|
        0 <= i < ivs.len() && ivs[i].app_name == app && in_window(#[trigger] ivs[i], window)
}

/// An app with no selected record totals zero.
pub proof fn lemma_absent_total_zero(
    ivs: Seq<IntervalModel>,
    app: Seq<char>,
    window: Option<(u64, u64)>,
)
    requires
        !app_present(ivs, app, window),
    ensures
        total_duration(ivs, Some(app), window) == 0,
    decreases ivs.len(),
{
    if ivs.len() > 0 {
        assert(!app_present(ivs.drop_last(), app, window)) by {
            if app_present(ivs.drop_last(), app, window) {
                let i = choose|i: int|
                    0 <= i < ivs.drop_last().len() && ivs.drop_last()[i].app_name == app
                        && in_window(#[trigger] ivs.drop_last()[i], window);
                assert(ivs[i] == ivs.drop_last()[i]);
            }
        }
        lemma_absent_total_zero(ivs.drop_last(), app, window);
        assert(ivs[ivs.len() - 1] == ivs.last());
    }
}

/// Clamped addition.
fn add_clamped(a: u64, b: u64) -> (r: u64)
    ensures
        r == sat_add(a, b),
{
    if u64::MAX - a < b {
        u64::MAX
    } else {
        a + b
    }
}

/// The clamped total duration of the selected records, walking the whole
/// store once.
fn total_in(log: &UsageLog, app: Option<&String>, window: Option<(u64, u64)>) -> (total: u64)
    ensures
        total == total_duration(
            log@,
            match app {
                Some(name) => Some(name@),
                None => None,
            },
            window,
        ),
{
    let ghost app_filter: Option<Seq<char>> = match app {
        Some(name) => Some(name@),
        None => None,
    };
    let mut total: u64 = 0;
    let mut i: usize = 0;
    let n = log.len();
    while i < n
        invariant
            n == log@.len(),
            i <= n,
            app_filter == (match app {
                Some(name) => Some(name@),
                None => None,
            }),
            total == total_duration(log@.take(i as int), app_filter, window),
        decreases n - i,
    {
        let iv = log.get(i);
        let mut selected = true;
        match app {
            Some(name) => {
                if !(iv.app_name == *name) {
                    selected = false;
                }
            },
            None => {},
        }
        match window {
            Some(w) => {
                if iv.start_time < w.0 || iv.start_time >= w.1 {
                    selected = false;
                }
            },
            None => {},
        }
        proof {
            assert(selected == matches_filter(log@[i as int], app_filter, window));
        }
        if selected {
            total = add_clamped(total, iv.duration);
        }
        i = i + 1;
        proof {
            let done = log@.take(i as int);
            assert(done.drop_last() =~= log@.take(i as int - 1));
            assert(done.last() == log@[i as int - 1]);
        }
    }
    proof {
        assert(log@.take(n as int) =~= log@);
    }
    total
}

/// Total recorded duration for one app within `[start, end)`.
pub fn get_data_for_app_and_time(
    log: &UsageLog,
    app_name: String,
    time_range: (u64, u64),
) -> (total: u64)
    ensures
        total == total_duration(log@, Some(app_name@), Some(time_range)),
{
    total_in(log, Some(&app_name), Some(time_range))
}

/// Total recorded duration for one app over all time.
pub fn get_total_app_usage(log: &UsageLog, app_name: String) -> (total: u64)
    ensures
        total == total_duration(log@, Some(app_name@), None::<(u64, u64)>),
{
    total_in(log, Some(&app_name), None)
}

/// Total recorded duration across all apps within `[start, end)`.
pub fn get_data_for_time(log: &UsageLog, time_range: (u64, u64)) -> (total: u64)
    ensures
        total == total_duration(log@, None::<Seq<char>>, Some(time_range)),
{
    total_in(log, None, Some(time_range))
}

/// The row index an app name lives at, if any.
fn find_row(rows: &Vec<(String, u64)>, name: &String) -> (r: Option<usize>)
    ensures
        match r {
            Some(j) => j < rows@.len() && rows@[j as int].0@ == name@,
            None => forall|k: int| 0 <= k < rows@.len() ==> (#[trigger] rows@[k]).0@ != name@,
        },
{
    let mut j: usize = 0;
    while j < rows.len()
        invariant
            j <= rows@.len(),
            forall|k: int| 0 <= k < j ==> (#[trigger] rows@[k]).0@ != name@,
        decreases rows@.len() - j,
    {
        if rows[j].0 == *name {
            return Some(j);
        }
        j = j + 1;
    }
    None
}

/// The per-app totals within an optional window: one row per app that has
/// a selected record, carrying that app's exact clamped total, sorted by
/// total with the largest first.
pub fn list_apps(log: &UsageLog, time_range: Option<(u64, u64)>) -> (rows: Vec<(String, u64)>)
    ensures
        forall|k: int|
            0 <= k < rows@.len() ==> (#[trigger] rows@[k]).1 == total_duration(
                log@,
                Some(rows@[k].0@),
                time_range,
            ),
        forall|k: int| 0 <= k < rows@.len() ==> app_present(log@, (#[trigger] rows@[k]).0@, time_range),
        forall|name: Seq<char>|
            #[trigger] app_present(log@, name, time_range) ==> exists|k: int|
                0 <= k < rows@.len() && (#[trigger] rows@[k]).0@ == name,
        forall|k1: int, k2: int|
            #![trigger rows@[k1], rows@[k2]]
            0 <= k1 < k2 < rows@.len() ==> rows@[k1].0@ != rows@[k2].0@,
        forall|k1: int, k2: int|
            #![trigger rows@[k1], rows@[k2]]
            0 <= k1 < k2 < rows@.len() ==> rows@[k1].1 >= rows@[k2].1,
{
    let mut rows: Vec<(String, u64)> = Vec::new();
    let mut i: usize = 0;
    let n = log.len();
    while i < n
        invariant
            n == log@.len(),
            i <= n,
            forall|k: int|
                0 <= k < rows@.len() ==> (#[trigger] rows@[k]).1 == total_duration(
                    log@.take(i as int),
                    Some(rows@[k].0@),
                    time_range,
                ),
            forall|k: int|
                0 <= k < rows@.len() ==> app_present(
                    log@.take(i as int),
                    (#[trigger] rows@[k]).0@,
                    time_range,
                ),
            forall|name: Seq<char>|
                #[trigger] app_present(log@.take(i as int), name, time_range) ==> exists|k: int|
                    0 <= k < rows@.len() && (#[trigger] rows@[k]).0@ == name,
            forall|k1: int, k2: int|
                #![trigger rows@[k1], rows@[k2]]
                0 <= k1 < k2 < rows@.len() ==> rows@[k1].0@ != rows@[k2].0@,
        decreases n - i,
    {
        let iv = log.get(i);
        let ghost done = log@.take(i as int);
        let ghost done2 = log@.take(i as int + 1);
        let ghost old_rows = rows@;
        proof {
            assert(done2.drop_last() =~= done);
            assert(done2.last() == log@[i as int]);
            assert forall|name: Seq<char>| #[trigger] app_present(done, name, time_range)
                implies app_present(done2, name, time_range) by {
                let k = choose|k: int|
                    0 <= k < done.len() && done[k].app_name == name && in_window(
                        #[trigger] done[k],
                        time_range,
                    );
                assert(done2[k] == done[k]);
            }
        }
        let mut selected = true;
        match time_range {
            Some(w) => {
                if iv.start_time < w.0 || iv.start_time >= w.1 {
                    selected = false;
                }
            },
            None => {},
        }
        proof {
            assert(selected == in_window(log@[i as int], time_range));
        }
        if selected {
            match find_row(&rows, &iv.app_name) {
                Some(j) => {
                    let (name0, tot0) = rows.remove(j);
                    let new_tot = add_clamped(tot0, iv.duration);
                    rows.insert(j, (name0, new_tot));
                    proof {
                        assert(rows@ =~= old_rows.update(j as int, (name0, new_tot)));
                        assert(old_rows[j as int].0@ == log@[i as int].app_name);
                        assert forall|k: int|
                            0 <= k < rows@.len() implies (#[trigger] rows@[k]).1
                            == total_duration(done2, Some(rows@[k].0@), time_range) by {
                            if k == j as int {
                                assert(matches_filter(
                                    done2.last(),
                                    Some(rows@[k].0@),
                                    time_range,
                                ));
                            } else {
                                assert(rows@[k] == old_rows[k]);
                                assert(rows@[k].0@ != old_rows[j as int].0@);
                                assert(!matches_filter(
                                    done2.last(),
                                    Some(rows@[k].0@),
                                    time_range,
                                ));
                            }
                        }
                        assert forall|k: int|
                            0 <= k < rows@.len() implies app_present(
                            done2,
                            (#[trigger] rows@[k]).0@,
                            time_range,
                        ) by {
                            assert(rows@[k].0@ == old_rows[k].0@);
                            assert(app_present(done, old_rows[k].0@, time_range));
                        }
                        assert forall|name: Seq<char>|
                            #[trigger] app_present(done2, name, time_range) implies exists|k: int|
                            0 <= k < rows@.len() && (#[trigger] rows@[k]).0@ == name by {
                            let x = choose|x: int|
                                0 <= x < done2.len() && done2[x].app_name == name && in_window(
                                    #[trigger] done2[x],
                                    time_range,
                                );
                            if x < i as int {
                                assert(done[x] == done2[x]);
                                assert(app_present(done, name, time_range));
                                let k = choose|k: int|
                                    0 <= k < old_rows.len() && (#[trigger] old_rows[k]).0@ == name;
                                assert(rows@[k].0@ == old_rows[k].0@);
                            } else {
                                assert(name == log@[i as int].app_name);
                                assert(rows@[j as int].0@ == name);
                            }
                        }
                        assert forall|k1: int, k2: int|
                            #![trigger rows@[k1], rows@[k2]]
                            0 <= k1 < k2 < rows@.len() implies rows@[k1].0@ != rows@[k2].0@ by {
                            assert(rows@[k1].0@ == old_rows[k1].0@);
                            assert(rows@[k2].0@ == old_rows[k2].0@);
                        }
                    }
                },
                None => {
                    let new_name = iv.app_name.clone();
                    let dur = iv.duration;
                    rows.push((new_name, dur));
                    proof {
                        let name = log@[i as int].app_name;
                        assert(rows@ =~= old_rows.push((new_name, dur)));
                        assert(!app_present(done, name, time_range)) by {
                            if app_present(done, name, time_range) {
                                let k = choose|k: int|
                                    0 <= k < old_rows.len() && (#[trigger] old_rows[k]).0@ == name;
                            }
                        }
                        lemma_absent_total_zero(done, name, time_range);
                        assert(matches_filter(done2.last(), Some(name), time_range));
                        assert(total_duration(done2, Some(name), time_range) == sat_add(
                            0,
                            log@[i as int].duration,
                        ));
                        assert forall|k: int|
                            0 <= k < rows@.len() implies (#[trigger] rows@[k]).1
                            == total_duration(done2, Some(rows@[k].0@), time_range) by {
                            if k < old_rows.len() {
                                assert(rows@[k] == old_rows[k]);
                                assert(rows@[k].0@ != name);
                                assert(!matches_filter(
                                    done2.last(),
                                    Some(rows@[k].0@),
                                    time_range,
                                ));
                            } else {
                                assert(rows@[k].0@ == name);
                            }
                        }
                        assert forall|k: int|
                            0 <= k < rows@.len() implies app_present(
                            done2,
                            (#[trigger] rows@[k]).0@,
                            time_range,
                        ) by {
                            if k < old_rows.len() {
                                assert(rows@[k].0@ == old_rows[k].0@);
                                assert(app_present(done, old_rows[k].0@, time_range));
                            } else {
                                assert(done2[i as int].app_name == rows@[k].0@);
                                assert(in_window(done2[i as int], time_range));
                            }
                        }
                        assert forall|name2: Seq<char>|
                            #[trigger] app_present(done2, name2, time_range) implies exists|k: int|
                            0 <= k < rows@.len() && (#[trigger] rows@[k]).0@ == name2 by {
                            let x = choose|x: int|
                                0 <= x < done2.len() && done2[x].app_name == name2 && in_window(
                                    #[trigger] done2[x],
                                    time_range,
                                );
                            if x < i as int {
                                assert(done[x] == done2[x]);
                                assert(app_present(done, name2, time_range));
                                let k = choose|k: int|
                                    0 <= k < old_rows.len() && (#[trigger] old_rows[k]).0@
                                        == name2;
                                assert(rows@[k].0@ == name2);
                            } else {
                                assert(rows@[rows@.len() - 1].0@ == name2);
                            }
                        }
                        assert forall|k1: int, k2: int|
                            #![trigger rows@[k1], rows@[k2]]
                            0 <= k1 < k2 < rows@.len() implies rows@[k1].0@ != rows@[k2].0@ by {
                            if k2 < old_rows.len() {
                                assert(rows@[k1] == old_rows[k1]);
                                assert(rows@[k2] == old_rows[k2]);
                            } else {
                                assert(rows@[k1] == old_rows[k1]);
                                assert(rows@[k2].0@ == name);
                            }
                        }
                    }
                },
            }
        } else {
            proof {
                assert forall|k: int|
                    0 <= k < rows@.len() implies (#[trigger] rows@[k]).1 == total_duration(
                    done2,
                    Some(rows@[k].0@),
                    time_range,
                ) by {
                    assert(!matches_filter(done2.last(), Some(rows@[k].0@), time_range));
                }
                assert forall|name: Seq<char>| #[trigger] app_present(done2, name, time_range)
                    implies app_present(done, name, time_range) by {
                    let x = choose|x: int|
                        0 <= x < done2.len() && done2[x].app_name == name && in_window(
                            #[trigger] done2[x],
                            time_range,
                        );
                    assert(x != i as int);
                    assert(done[x] == done2[x]);
                }
            }
        }
        i = i + 1;
    }
    proof {
        assert(log@.take(n as int) =~= log@);
    }
    let mut sorted: Vec<(String, u64)> = Vec::new();
    while rows.len() > 0
        invariant
            forall|k: int|
                0 <= k < sorted@.len() ==> (#[trigger] sorted@[k]).1 == total_duration(
                    log@,
                    Some(sorted@[k].0@),
                    time_range,
                ),
            forall|k: int|
                0 <= k < rows@.len() ==> (#[trigger] rows@[k]).1 == total_duration(
                    log@,
                    Some(rows@[k].0@),
                    time_range,
                ),
            forall|k: int|
                0 <= k < sorted@.len() ==> app_present(log@, (#[trigger] sorted@[k]).0@, time_range),
            forall|k: int|
                0 <= k < rows@.len() ==> app_present(log@, (#[trigger] rows@[k]).0@, time_range),
            forall|name: Seq<char>|
                #[trigger] app_present(log@, name, time_range) ==> (exists|k: int|
                    0 <= k < sorted@.len() && (#[trigger] sorted@[k]).0@ == name) || (exists|k: int|
                    0 <= k < rows@.len() && (#[trigger] rows@[k]).0@ == name),
            forall|k1: int, k2: int|
                #![trigger sorted@[k1], sorted@[k2]]
                0 <= k1 < k2 < sorted@.len() ==> sorted@[k1].0@ != sorted@[k2].0@,
            forall|k1: int, k2: int|
                #![trigger rows@[k1], rows@[k2]]
                0 <= k1 < k2 < rows@.len() ==> rows@[k1].0@ != rows@[k2].0@,
            forall|k1: int, k2: int|
                #![trigger sorted@[k1], rows@[k2]]
                0 <= k1 < sorted@.len() && 0 <= k2 < rows@.len() ==> sorted@[k1].0@
                    != rows@[k2].0@,
            forall|k1: int, k2: int|
                #![trigger sorted@[k1], sorted@[k2]]
                0 <= k1 < k2 < sorted@.len() ==> sorted@[k1].1 >= sorted@[k2].1,
            forall|k1: int, k2: int|
                #![trigger sorted@[k1], rows@[k2]]
                0 <= k1 < sorted@.len() && 0 <= k2 < rows@.len() ==> sorted@[k1].1 >= rows@[k2].1,
        decreases rows@.len(),
    {
        let mut m: usize = 0;
        let mut j: usize = 1;
        while j < rows.len()
            invariant
                rows@.len() > 0,
                m < j,
                j <= rows@.len(),
                forall|k: int| 0 <= k < j ==> (#[trigger] rows@[k]).1 <= rows@[m as int].1,
            decreases rows@.len() - j,
        {
            if rows[j].1 > rows[m].1 {
                m = j;
            }
            j = j + 1;
        }
        let ghost old_rows = rows@;
        let ghost old_sorted = sorted@;
        let p = rows.remove(m);
        sorted.push(p);
        proof {
            assert(sorted@ =~= old_sorted.push(old_rows[m as int]));
            assert forall|name: Seq<char>| #[trigger] app_present(log@, name, time_range)
                implies (exists|k: int|
                0 <= k < sorted@.len() && (#[trigger] sorted@[k]).0@ == name) || (exists|k: int|
                0 <= k < rows@.len() && (#[trigger] rows@[k]).0@ == name) by {
                if exists|k: int| 0 <= k < old_sorted.len() && (#[trigger] old_sorted[k]).0@ == name {
                    let k = choose|k: int|
                        0 <= k < old_sorted.len() && (#[trigger] old_sorted[k]).0@ == name;
                    assert(sorted@[k].0@ == name);
                } else {
                    let k = choose|k: int|
                        0 <= k < old_rows.len() && (#[trigger] old_rows[k]).0@ == name;
                    if k == m as int {
                        assert(sorted@[sorted@.len() - 1].0@ == name);
                    } else if k < m as int {
                        assert(rows@[k].0@ == name);
                    } else {
                        assert(rows@[k - 1] == old_rows[k]);
                    }
                }
            }
            assert forall|k1: int, k2: int|
                #![trigger sorted@[k1], rows@[k2]]
                0 <= k1 < sorted@.len() && 0 <= k2 < rows@.len() implies sorted@[k1].0@
                != rows@[k2].0@ by {
                let prev = if k2 < m as int {
                    k2
                } else {
                    k2 + 1
                };
                assert(rows@[k2] == old_rows[prev]);
                if k1 < old_sorted.len() {
                    assert(sorted@[k1] == old_sorted[k1]);
                } else {
                    assert(sorted@[k1] == old_rows[m as int]);
                    if prev < m as int {
                        assert(old_rows[prev].0@ != old_rows[m as int].0@);
                    } else {
                        assert(old_rows[m as int].0@ != old_rows[prev].0@);
                    }
                }
            }
            assert forall|k1: int, k2: int|
                #![trigger sorted@[k1], rows@[k2]]
                0 <= k1 < sorted@.len() && 0 <= k2 < rows@.len() implies sorted@[k1].1
                >= rows@[k2].1 by {
                let prev = if k2 < m as int {
                    k2
                } else {
                    k2 + 1
                };
                assert(rows@[k2] == old_rows[prev]);
                assert(old_rows[prev].1 <= old_rows[m as int].1);
                if k1 < old_sorted.len() {
                    assert(sorted@[k1] == old_sorted[k1]);
                    assert(old_sorted[k1].1 >= old_rows[prev].1);
                } else {
                    assert(sorted@[k1] == old_rows[m as int]);
                }
            }
            assert forall|k: int|
                0 <= k < rows@.len() implies (#[trigger] rows@[k]).1 == total_duration(
                log@,
                Some(rows@[k].0@),
                time_range,
            ) && app_present(log@, rows@[k].0@, time_range) by {
                let prev = if k < m as int {
                    k
                } else {
                    k + 1
                };
                assert(rows@[k] == old_rows[prev]);
            }
            assert forall|k1: int, k2: int|
                #![trigger rows@[k1], rows@[k2]]
                0 <= k1 < k2 < rows@.len() implies rows@[k1].0@ != rows@[k2].0@ by {
                let p1 = if k1 < m as int {
                    k1
                } else {
                    k1 + 1
                };
                let p2 = if k2 < m as int {
                    k2
                } else {
                    k2 + 1
                };
                assert(rows@[k1] == old_rows[p1]);
                assert(rows@[k2] == old_rows[p2]);
            }
        }
    }
    sorted
}

} // verus!
