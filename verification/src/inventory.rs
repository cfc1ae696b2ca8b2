//! Reading the inventory.
//!
//! The inventory is a binary array of slot entries: a `Reference` to an
//! upgrade record fills one slot, a `Null` is one empty slot, and a
//! `NullMultiple` stands for `count` empty slots. A `List` record, when the
//! inventory has one, tells in its `_size` how many slots are in use; the
//! walk over the entries stops once it has passed that many.
use vstd::prelude::*;

use crate::hero::{is_hero_entry, members_or_empty};
use crate::json::{JVal, Json, views, entry_views};
use crate::save_manager::{
    SaveManager, BOMB_UPGRADE_CODE, CORNUCOPIA_UPGRADE_CODE, GRAIL_UPGRADE_CODE, MINE_UPGRADE_CODE,
    PHILOSOPHERS_STONE_UPGRADE_CODE, SIZE_UPGRADE_CODE, WARHAMMER_UPGRADE_CODE,
    WAR_HORN_UPGRADE_CODE,
};
use crate::save_model::{
    class_name_has, find_named, get_i64, get_str, id_key, inventory_refs, list_size, members_vec,
    named, record_by_id, record_of, records, upgrade_record_name,
};
use crate::search::{
    count_where, first_index, first_int, is_first_int, lemma_count_bound, lemma_count_step,
    lemma_first_int_past, lemma_first_int_is, lemma_first_int_none, lemma_first_none,
};
use crate::text::{key_lt, lemma_key_lt_order, str_eq, str_lt};

verus! {

/// The `type` of a slot entry.
pub open spec fn entry_type(e: JVal) -> Option<Seq<char>> {
    e.get("type"@).as_str()
}

/// The `count` of a `NullMultiple` entry as an `i32` (1 when it has none).
pub open spec fn null_count(e: JVal) -> i32 {
    match e.get("count"@).as_i64() {
        Some(c) => c as i32,
        None => 1,
    }
}

/// How many slots an entry stands for.
pub open spec fn slot_width(e: JVal) -> int {
    if entry_type(e) == Some("NullMultiple"@) {
        null_count(e) as int
    } else {
        1
    }
}

/// The slot index at which entry `k` starts.
pub open spec fn logical_at(vs: Seq<JVal>, k: int) -> int
    decreases k,
{
    if k <= 0 || k > vs.len() {
        0
    } else {
        logical_at(vs, k - 1) + slot_width(vs[k - 1])
    }
}

/// The slot indices of the first `m + 1` entries fit in an `i32`.
pub open spec fn fits_upto(vs: Seq<JVal>, m: int) -> bool {
    forall|k: int| 0 <= k <= m && k <= vs.len() ==> i32::MIN <= #[trigger] logical_at(vs, k) <= i32::MAX
}

/// The walk stops at entry `k`: it has passed the `limit` slots in use.
pub open spec fn walk_stop(vs: Seq<JVal>, limit: Option<i32>) -> spec_fn(int) -> bool {
    |k: int| limit is Some && logical_at(vs, k) >= limit.unwrap()
}

/// How many entries the walk reads.
pub open spec fn walk_end(vs: Seq<JVal>, limit: Option<i32>) -> int {
    first_int(vs.len() as int, walk_stop(vs, limit))
}

/// The inventory's entries and the number of slots in use, when it has a list.
pub open spec fn inventory_slots(j: JVal) -> Option<(Seq<JVal>, Option<i32>)> {
    match inventory_refs(j) {
        Ok((lid, aid)) => match record_by_id(j, aid as int).get("values"@).as_array() {
            Some(vs) => Some(
                (
                    vs,
                    match lid {
                        Some(l) => Some(list_size(j, l as int)),
                        None => None,
                    },
                ),
            ),
            None => None,
        },
        Err(_) => None,
    }
}

/// A `Reference` entry whose upgrade is named `code` (any non-empty name when `code` is `None`).
pub open spec fn counted(j: JVal, code: Option<Seq<char>>) -> spec_fn(JVal) -> bool {
    |e: JVal|
        entry_type(e) == Some("Reference"@) && e.get("id"@).as_i64() is Some && match code {
            Some(c) => upgrade_record_name(j, e.get("id"@).as_i64().unwrap() as int) == c,
            None => upgrade_record_name(j, e.get("id"@).as_i64().unwrap() as int).len() > 0,
        }
}

/// How many entries the walk reads that are counted.
pub open spec fn walk_count(j: JVal, vs: Seq<JVal>, limit: Option<i32>, code: Option<Seq<char>>) -> int {
    count_where(vs.take(walk_end(vs, limit)), counted(j, code)) as int
}

/// How many inventory items are named `code` (every named item when `code` is `None`).
pub open spec fn inventory_count(j: JVal, code: Option<Seq<char>>) -> int {
    match inventory_slots(j) {
        Some((vs, limit)) => walk_count(j, vs, limit, code),
        None => 0,
    }
}

/// Walking the inventory does not overflow its `i32` slot index or count.
pub open spec fn inventory_ok(j: JVal) -> bool {
    match inventory_slots(j) {
        Some((vs, limit)) => vs.len() <= i32::MAX && fits_upto(vs, walk_end(vs, limit)),
        None => true,
    }
}

/// A hero record whose first `upgrade` member references an upgrade named `code`.
pub open spec fn carries(j: JVal, code: Seq<char>) -> spec_fn((Seq<char>, JVal)) -> bool {
    |e: (Seq<char>, JVal)|
        is_hero_entry(e) && match first_index(members_or_empty(e.1), named("upgrade"@)) {
            Some(k) => match members_or_empty(e.1)[k].get("id"@).as_i64() {
                Some(id) => upgrade_record_name(j, id as int) == code,
                None => false,
            },
            None => false,
        }
}

/// How many heroes carry an upgrade named `code`.
pub open spec fn hero_count(j: JVal, code: Seq<char>) -> int {
    match records(j).as_object() {
        Some(es) => count_where(es, carries(j, code)) as int,
        None => 0,
    }
}

/// The records are few enough to be counted in an `i32`.
pub open spec fn records_countable(j: JVal) -> bool {
    records(j).as_object() matches Some(es) ==> es.len() <= i32::MAX
}

/// `r` lists, in key order, each name that `keep` admits and that a counted
/// entry of `vs` carries, with how many entries carry it.
pub open spec fn is_tally(
    r: Seq<(Seq<char>, i32)>,
    j: JVal,
    vs: Seq<JVal>,
    keep: spec_fn(Seq<char>) -> bool,
) -> bool {
    &&& forall|a: int, b: int| 0 <= a < b < r.len() ==> key_lt(#[trigger] r[a].0, #[trigger] r[b].0)
    &&& forall|a: int|
        0 <= a < r.len() ==> {
            &&& (#[trigger] r[a]).0.len() > 0
            &&& keep(r[a].0)
            &&& r[a].1 > 0
            &&& r[a].1 == count_where(vs, counted(j, Some(r[a].0)))
        }
    &&& forall|n: Seq<char>|
        n.len() > 0 && keep(n) && count_where(vs, #[trigger] counted(j, Some(n))) > 0 ==> exists|a: int|
            0 <= a < r.len() && (#[trigger] r[a]).0 == n
}

/// `r` is in key order and lists, each once, names that `keep` admits, with
/// how many entries of `vs` carry them.
pub open spec fn is_tally_part(
    r: Seq<(Seq<char>, i32)>,
    j: JVal,
    vs: Seq<JVal>,
    keep: spec_fn(Seq<char>) -> bool,
) -> bool {
    &&& forall|a: int, b: int| 0 <= a < b < r.len() ==> key_lt(#[trigger] r[a].0, #[trigger] r[b].0)
    &&& forall|a: int|
        0 <= a < r.len() ==> {
            &&& (#[trigger] r[a]).0.len() > 0
            &&& keep(r[a].0)
            &&& r[a].1 > 0
            &&& r[a].1 == count_where(vs, counted(j, Some(r[a].0)))
        }
}

/// Every name.
pub open spec fn any_name() -> spec_fn(Seq<char>) -> bool {
    |n: Seq<char>| true
}

/// A name the editor does not offer by name.
pub open spec fn undeclared() -> spec_fn(Seq<char>) -> bool {
    |n: Seq<char>| !known_item(n)
}

/// `r` is the tally of the inventory's items whose names `keep` admits.
pub open spec fn inventory_tally(j: JVal, keep: spec_fn(Seq<char>) -> bool, r: Seq<(Seq<char>, i32)>) -> bool {
    match inventory_slots(j) {
        Some((vs, limit)) => is_tally(r, j, vs.take(walk_end(vs, limit)), keep),
        None => r.len() == 0,
    }
}

pub open spec fn tally_view(v: Seq<(String, i32)>) -> Seq<(Seq<char>, i32)> {
    Seq::new(v.len(), |i: int| (v[i].0@, v[i].1))
}

/// The codes the editor offers by name.
pub open spec fn known_item(n: Seq<char>) -> bool {
    n == "Hero_Upgrade_Grail"@ || n == "Hero_Upgrade_Bomb"@ || n == "Hero_Upgrade_Mine"@ || n
        == "Hero_Upgrade_PhilosophersStone"@ || n == "Hero_Upgrade_Size"@ || n
        == "Hero_Upgrade_Warhammer"@ || n == "Hero_Upgrade_Cornucopia"@ || n
        == "Hero_Upgrade_WarHorn"@
}

/// The walk reads entry `i` when it has not stopped at it nor before: then it
/// reads at least `i + 1` entries, and the slot index after entry `i` is an `i32`.
pub proof fn lemma_walk_step(vs: Seq<JVal>, limit: Option<i32>, i: int)
    requires
        0 <= i < vs.len(),
        forall|k: int| 0 <= k <= i ==> !#[trigger] walk_stop(vs, limit)(k),
        fits_upto(vs, walk_end(vs, limit)),
    ensures
        walk_end(vs, limit) >= i + 1,
        i32::MIN <= logical_at(vs, i + 1) <= i32::MAX,
{
    let stop = walk_stop(vs, limit);
    if walk_end(vs, limit) < i + 1 {
        if exists|k: int| is_first_int(vs.len() as int, stop, k) {
            let m = choose|m: int| is_first_int(vs.len() as int, stop, m);
            assert(stop(m));
        }
    }
    assert(i32::MIN <= logical_at(vs, i + 1) <= i32::MAX);
}

/// The walk reads exactly `i` entries when it stops at `i` (or runs out there)
/// and not before.
pub proof fn lemma_walk_end(vs: Seq<JVal>, limit: Option<i32>, i: int)
    requires
        0 <= i <= vs.len(),
        forall|k: int| 0 <= k < i ==> !#[trigger] walk_stop(vs, limit)(k),
        i == vs.len() || walk_stop(vs, limit)(i),
    ensures
        walk_end(vs, limit) == i,
{
    if i < vs.len() {
        lemma_first_int_is(vs.len() as int, walk_stop(vs, limit), i);
    } else {
        lemma_first_int_none(vs.len() as int, walk_stop(vs, limit));
    }
}

/// The sum of the counts of a tally.
pub open spec fn tally_sum(t: Seq<(Seq<char>, i32)>) -> int
    decreases t.len(),
{
    if t.len() == 0 {
        0
    } else {
        tally_sum(t.drop_last()) + t.last().1
    }
}

proof fn lemma_tally_sum_update(t: Seq<(Seq<char>, i32)>, pos: int, x: (Seq<char>, i32))
    requires
        0 <= pos < t.len(),
    ensures
        tally_sum(t.update(pos, x)) == tally_sum(t) - t[pos].1 + x.1,
    decreases t.len(),
{
    let u = t.update(pos, x);
    if pos < t.len() - 1 {
        assert(u.drop_last() =~= t.drop_last().update(pos, x));
        lemma_tally_sum_update(t.drop_last(), pos, x);
    } else {
        assert(u.drop_last() =~= t.drop_last());
    }
}

proof fn lemma_tally_sum_insert(t: Seq<(Seq<char>, i32)>, pos: int, x: (Seq<char>, i32))
    requires
        0 <= pos <= t.len(),
    ensures
        tally_sum(t.insert(pos, x)) == tally_sum(t) + x.1,
    decreases t.len(),
{
    let u = t.insert(pos, x);
    if pos < t.len() {
        assert(u.drop_last() =~= t.drop_last().insert(pos, x));
        lemma_tally_sum_insert(t.drop_last(), pos, x);
    } else {
        assert(u.drop_last() =~= t);
    }
}

/// The name of the upgrade a `Reference` entry points at.
pub open spec fn entry_name(j: JVal, e: JVal) -> Seq<char> {
    upgrade_record_name(j, e.get("id"@).as_i64().unwrap() as int)
}

/// Reading one more entry changes the count of each name by whether the entry carries it.
proof fn lemma_count_names(j: JVal, vs: Seq<JVal>, i: int)
    requires
        0 <= i < vs.len(),
    ensures
        forall|m: Seq<char>|
            m.len() > 0 ==> #[trigger] count_where(vs.take(i + 1), counted(j, Some(m))) == count_where(
                vs.take(i),
                counted(j, Some(m)),
            ) + if counted(j, None)(vs[i]) && entry_name(j, vs[i]) == m {
                1nat
            } else {
                0nat
            },
{
    assert forall|m: Seq<char>| m.len() > 0 implies #[trigger] count_where(vs.take(i + 1), counted(j, Some(m)))
        == count_where(vs.take(i), counted(j, Some(m))) + if counted(j, None)(vs[i]) && entry_name(j, vs[i])
        == m {
        1nat
    } else {
        0nat
    } by {
        lemma_count_step(vs, counted(j, Some(m)), i);
    }
}

/// A tally lists no name twice.
proof fn lemma_tally_distinct(t: Seq<(Seq<char>, i32)>, a: int, b: int)
    requires
        forall|x: int, y: int| 0 <= x < y < t.len() ==> key_lt(#[trigger] t[x].0, #[trigger] t[y].0),
        0 <= a < t.len(),
        0 <= b < t.len(),
        a != b,
    ensures
        t[a].0 != t[b].0,
{
    lemma_key_lt_order(t[a].0, t[b].0, t[a].0);
    if a < b {
        assert(key_lt(t[a].0, t[b].0));
    } else {
        assert(key_lt(t[b].0, t[a].0));
    }
}

/// Reading an entry that is not counted leaves the tally as it is.
proof fn lemma_tally_skip(t: Seq<(Seq<char>, i32)>, j: JVal, vs: Seq<JVal>, i: int)
    requires
        0 <= i < vs.len(),
        is_tally(t, j, vs.take(i), any_name()),
        !counted(j, None)(vs[i]),
    ensures
        is_tally(t, j, vs.take(i + 1), any_name()),
{
    lemma_count_names(j, vs, i);
    assert forall|a: int| 0 <= a < t.len() implies #[trigger] t[a].1 == count_where(
        vs.take(i + 1),
        counted(j, Some(t[a].0)),
    ) by {
        assert(t[a].0.len() > 0);
    }
}

/// Reading a counted entry: its name is counted once more, at the place the
/// key order gives it.
proof fn lemma_tally_add(t: Seq<(Seq<char>, i32)>, j: JVal, vs: Seq<JVal>, i: int, pos: int)
    requires
        0 <= i < vs.len(),
        i < i32::MAX,
        is_tally(t, j, vs.take(i), any_name()),
        counted(j, None)(vs[i]),
        0 <= pos <= t.len(),
        forall|a: int| 0 <= a < pos ==> key_lt(#[trigger] t[a].0, entry_name(j, vs[i])),
        pos < t.len() ==> !key_lt(t[pos].0, entry_name(j, vs[i])),
    ensures
        pos < t.len() && t[pos].0 == entry_name(j, vs[i]) ==> t[pos].1 < i32::MAX && is_tally(
            t.update(pos, (t[pos].0, (t[pos].1 + 1) as i32)),
            j,
            vs.take(i + 1),
            any_name(),
        ),
        !(pos < t.len() && t[pos].0 == entry_name(j, vs[i])) ==> is_tally(
            t.insert(pos, (entry_name(j, vs[i]), 1i32)),
            j,
            vs.take(i + 1),
            any_name(),
        ),
{
    let n = entry_name(j, vs[i]);
    let s0 = vs.take(i);
    let s1 = vs.take(i + 1);
    lemma_count_names(j, vs, i);
    if pos < t.len() && t[pos].0 == n {
        let t2 = t.update(pos, (t[pos].0, (t[pos].1 + 1) as i32));
        lemma_count_bound(s0, counted(j, Some(n)));
        assert forall|a: int| 0 <= a < t2.len() implies {
            &&& (#[trigger] t2[a]).0.len() > 0
            &&& any_name()(t2[a].0)
            &&& t2[a].1 > 0
            &&& t2[a].1 == count_where(s1, counted(j, Some(t2[a].0)))
        } by {
            if a != pos {
                lemma_tally_distinct(t, a, pos);
            }
        }
        assert forall|m: Seq<char>|
            m.len() > 0 && any_name()(m) && count_where(s1, #[trigger] counted(j, Some(m))) > 0 implies exists|
            a: int,
        | 0 <= a < t2.len() && (#[trigger] t2[a]).0 == m by {
            if m == n {
                assert(t2[pos].0 == m);
            } else {
                assert(count_where(s0, counted(j, Some(m))) > 0);
                let a = choose|a: int| 0 <= a < t.len() && (#[trigger] t[a]).0 == m;
                assert(t2[a].0 == m);
            }
        }
    } else {
        let t2 = t.insert(pos, (n, 1i32));
        // no entry of `t` carries `n`
        assert forall|a: int| 0 <= a < t.len() implies (#[trigger] t[a]).0 != n by {
            lemma_key_lt_order(n, n, n);
            if a < pos {
                assert(key_lt(t[a].0, n));
            } else {
                lemma_key_lt_order(t[pos].0, n, t[pos].0);
                assert(key_lt(n, t[pos].0));
                if a > pos {
                    assert(key_lt(t[pos].0, t[a].0));
                    lemma_key_lt_order(n, t[pos].0, t[a].0);
                }
            }
        }
        assert(count_where(s0, counted(j, Some(n))) == 0) by {
            if count_where(s0, counted(j, Some(n))) > 0 {
                let a = choose|a: int| 0 <= a < t.len() && (#[trigger] t[a]).0 == n;
                assert(t[a].0 == n);
            }
        }
        assert forall|a: int, b: int| 0 <= a < b < t2.len() implies key_lt(#[trigger] t2[a].0, #[trigger] t2[b].0) by {
            if a < pos && b == pos {
                assert(key_lt(t[a].0, n));
            } else if a < pos && b > pos {
                assert(key_lt(t[a].0, n));
                assert(t2[b] == t[b - 1]);
                if b - 1 == pos {
                    lemma_key_lt_order(t[pos].0, n, t[pos].0);
                    lemma_key_lt_order(t[a].0, n, t[pos].0);
                } else {
                    assert(key_lt(t[pos].0, t[b - 1].0));
                    lemma_key_lt_order(t[pos].0, n, t[pos].0);
                    lemma_key_lt_order(n, t[pos].0, t[b - 1].0);
                    lemma_key_lt_order(t[a].0, n, t[b - 1].0);
                }
            } else if a == pos {
                assert(t2[b] == t[b - 1]);
                lemma_key_lt_order(t[pos].0, n, t[pos].0);
                if b - 1 > pos {
                    assert(key_lt(t[pos].0, t[b - 1].0));
                    lemma_key_lt_order(n, t[pos].0, t[b - 1].0);
                }
            } else if a > pos {
                assert(t2[a] == t[a - 1]);
                assert(t2[b] == t[b - 1]);
                assert(key_lt(t[a - 1].0, t[b - 1].0));
            } else {
                assert(t2[a] == t[a]);
                assert(t2[b] == t[b]);
            }
        }
        assert forall|a: int| 0 <= a < t2.len() implies {
            &&& (#[trigger] t2[a]).0.len() > 0
            &&& any_name()(t2[a].0)
            &&& t2[a].1 > 0
            &&& t2[a].1 == count_where(s1, counted(j, Some(t2[a].0)))
        } by {
            if a < pos {
                assert(t2[a] == t[a]);
            } else if a > pos {
                assert(t2[a] == t[a - 1]);
            }
        }
        assert forall|m: Seq<char>|
            m.len() > 0 && any_name()(m) && count_where(s1, #[trigger] counted(j, Some(m))) > 0 implies exists|
            a: int,
        | 0 <= a < t2.len() && (#[trigger] t2[a]).0 == m by {
            if m == n {
                assert(t2[pos].0 == m);
            } else {
                assert(count_where(s0, counted(j, Some(m))) > 0);
                let a = choose|a: int| 0 <= a < t.len() && (#[trigger] t[a]).0 == m;
                if a < pos {
                    assert(t2[a].0 == m);
                } else {
                    assert(t2[a + 1].0 == m);
                }
            }
        }
    }
}

impl SaveManager {
    /// The inventory's entries and the number of slots in use.
    pub(crate) fn inventory_values(json: &Json) -> (r: Option<(&Vec<Json>, Option<i32>)>)
        ensures
            r is Some == inventory_slots(json@) is Some,
            r matches Some(p) ==> inventory_slots(json@) == Some((views(p.0@), p.1)),
    {
        let (lid, aid) = match Self::find_inventory_refs(json) {
            Ok(p) => p,
            Err(_) => return None,
        };
        let limit = match lid {
            Some(l) => Some(Self::get_list_size(json, l)),
            None => None,
        };
        let key = id_key(aid);
        let vs = match record_of(json, key.as_str()) {
            Some(rec) => match rec.get("values") {
                Some(v) => v.as_array(),
                None => None,
            },
            None => None,
        };
        match vs {
            Some(v) => Some((v, limit)),
            None => None,
        }
    }

    fn passed(limit: Option<i32>, logical: i32) -> (r: bool)
        ensures
            r == (limit is Some && logical >= limit.unwrap()),
    {
        match limit {
            Some(l) => logical >= l,
            None => false,
        }
    }

    /// The width of a slot entry (see [`slot_width`]).
    pub(crate) fn width_of(e: &Json) -> (r: (bool, i32))
        ensures
            r.0 == (entry_type(e@) == Some("NullMultiple"@)),
            r.1 as int == slot_width(e@),
    {
        let multi = match get_str(e, "type") {
            Some(t) => str_eq(t, "NullMultiple"),
            None => false,
        };
        if multi {
            let c = match get_i64(e, "count") {
                Some(c) => c as i32,
                None => 1,
            };
            (true, c)
        } else {
            (false, 1)
        }
    }

    /// Whether an entry is counted (see [`counted`]).
    pub(crate) fn is_counted(json: &Json, e: &Json, code: Option<&str>) -> (r: bool)
        ensures
            r == counted(json@, match code {
                Some(c) => Some(c@),
                None => None,
            })(e@),
    {
        let is_ref = match get_str(e, "type") {
            Some(t) => str_eq(t, "Reference"),
            None => false,
        };
        if !is_ref {
            return false;
        }
        match get_i64(e, "id") {
            Some(id) => {
                let name = Self::read_upgrade_record_name(json, id);
                match code {
                    Some(c) => str_eq(name.as_str(), c),
                    None => !name.as_str().is_empty(),
                }
            },
            None => false,
        }
    }

    /// Walks the entries, counting those that are counted.
    fn count_walk(json: &Json, vs: &Vec<Json>, limit: Option<i32>, code: Option<&str>) -> (r: i32)
        requires
            vs@.len() <= i32::MAX,
            fits_upto(views(vs@), walk_end(views(vs@), limit)),
        ensures
            r as int == walk_count(json@, views(vs@), limit, match code {
                Some(c) => Some(c@),
                None => None,
            }),
    {
        let ghost vsv = views(vs@);
        let ghost cv = match code {
            Some(c) => Some(c@),
            None => None,
        };
        let ghost p = counted(json@, cv);
        let mut count: i32 = 0;
        let mut logical: i32 = 0;
        let mut i: usize = 0;
        while i < vs.len() && !Self::passed(limit, logical)
            invariant
                vsv == views(vs@),
                vs@.len() <= i32::MAX,
                p == counted(json@, cv),
                cv == match code {
                    Some(c) => Some(c@),
                    None => None,
                },
                fits_upto(vsv, walk_end(vsv, limit)),
                0 <= i <= vs.len(),
                logical as int == logical_at(vsv, i as int),
                count as int == count_where(vsv.take(i as int), p),
                count <= i,
                forall|k: int| 0 <= k < i ==> !#[trigger] walk_stop(vsv, limit)(k),
            decreases vs.len() - i,
        {
            proof {
                lemma_count_step(vsv, p, i as int);
                lemma_walk_step(vsv, limit, i as int);
            }
            let e = &vs[i];
            if Self::is_counted(json, e, code) {
                count = count + 1;
            }
            let (_, w) = Self::width_of(e);
            logical = logical + w;
            i += 1;
        }
        proof {
            lemma_walk_end(vsv, limit, i as int);
        }
        count
    }

    /// Whether the records are few enough to be counted in an `i32` (see
    /// [`records_countable`]); the hero counts need it.
    pub fn records_count_fits(json: &Json) -> (r: bool)
        ensures
            r == records_countable(json@),
    {
        match json.get("records") {
            Some(rs) => match rs.as_object() {
                Some(es) => es.len() <= 2147483647usize,
                None => true,
            },
            None => true,
        }
    }

    /// Whether walking the inventory stays within `i32` slot indices (see
    /// [`inventory_ok`]); the counting functions need it.
    pub fn inventory_walk_fits(json: &Json) -> (r: bool)
        ensures
            r == inventory_ok(json@),
    {
        let (vs, limit) = match Self::inventory_values(json) {
            Some(p) => p,
            None => return true,
        };
        if vs.len() > 2147483647usize {
            return false;
        }
        let ghost vsv = views(vs@);
        let mut logical: i64 = 0;
        let mut i: usize = 0;
        while i < vs.len()
            invariant
                vsv == views(vs@),
                inventory_slots(json@) == Some((vsv, limit)),
                vs@.len() <= i32::MAX,
                0 <= i <= vs.len(),
                logical as int == logical_at(vsv, i as int),
                forall|k: int| 0 <= k <= i ==> i32::MIN <= #[trigger] logical_at(vsv, k) <= i32::MAX,
                forall|k: int| 0 <= k < i ==> !#[trigger] walk_stop(vsv, limit)(k),
            decreases vs.len() - i,
        {
            let stopped = match limit {
                Some(l) => logical >= l as i64,
                None => false,
            };
            if stopped {
                proof {
                    lemma_walk_end(vsv, limit, i as int);
                    assert(fits_upto(vsv, walk_end(vsv, limit)));
                }
                return true;
            }
            let (_, w) = Self::width_of(&vs[i]);
            let next = logical + w as i64;
            if next < -2147483648i64 || next > 2147483647i64 {
                proof {
                    lemma_first_int_past(vsv.len() as int, walk_stop(vsv, limit), i as int);
                    assert(logical_at(vsv, i + 1) == next);
                    assert(!fits_upto(vsv, walk_end(vsv, limit)));
                }
                return false;
            }
            logical = next;
            i += 1;
        }
        proof {
            lemma_walk_end(vsv, limit, i as int);
            assert(fits_upto(vsv, walk_end(vsv, limit)));
        }
        true
    }

    /// How many inventory items are named `upgrade_code` (see [`inventory_count`]).
    pub fn get_inventory_item_count(json: &Json, upgrade_code: &str) -> (r: i32)
        requires
            inventory_ok(json@),
        ensures
            r as int == inventory_count(json@, Some(upgrade_code@)),
    {
        match Self::inventory_values(json) {
            Some((vs, limit)) => Self::count_walk(json, vs, limit, Some(upgrade_code)),
            None => 0,
        }
    }

    /// How many inventory items are grails.
    pub fn get_inventory_grail_count(json: &Json) -> (r: i32)
        requires
            inventory_ok(json@),
        ensures
            r as int == inventory_count(json@, Some(GRAIL_UPGRADE_CODE@)),
    {
        Self::get_inventory_item_count(json, GRAIL_UPGRADE_CODE)
    }

    /// How many named items the inventory holds.
    pub fn get_total_inventory_count(json: &Json) -> (r: i32)
        requires
            inventory_ok(json@),
        ensures
            r as int == inventory_count(json@, None),
    {
        match Self::inventory_values(json) {
            Some((vs, limit)) => Self::count_walk(json, vs, limit, None),
            None => 0,
        }
    }

    /// The name an entry is counted under, when it is counted (see [`counted`]).
    fn counted_name(json: &Json, e: &Json) -> (r: Option<String>)
        ensures
            r is Some == counted(json@, None)(e@),
            r matches Some(n) ==> n@ == entry_name(json@, e@),
    {
        let is_ref = match get_str(e, "type") {
            Some(t) => str_eq(t, "Reference"),
            None => false,
        };
        if !is_ref {
            return None;
        }
        match get_i64(e, "id") {
            Some(id) => {
                let name = Self::read_upgrade_record_name(json, id);
                if name.as_str().is_empty() {
                    None
                } else {
                    Some(name)
                }
            },
            None => None,
        }
    }

    /// The first place in a tally whose name does not come before `n`.
    fn tally_pos(r: &Vec<(String, i32)>, n: &str) -> (pos: usize)
        ensures
            pos <= r.len(),
            forall|a: int| 0 <= a < pos ==> key_lt(#[trigger] tally_view(r@)[a].0, n@),
            pos < r.len() ==> !key_lt(tally_view(r@)[pos as int].0, n@),
    {
        let mut i: usize = 0;
        while i < r.len()
            invariant
                0 <= i <= r.len(),
                forall|a: int| 0 <= a < i ==> key_lt(#[trigger] tally_view(r@)[a].0, n@),
            decreases r.len() - i,
        {
            if !str_lt(r[i].0.as_str(), n) {
                return i;
            }
            i += 1;
        }
        i
    }

    /// Each named inventory item with how many there are, in the order of
    /// their names (see [`inventory_tally`]).
    pub fn get_all_inventory_items(json: &Json) -> (r: Vec<(String, i32)>)
        requires
            inventory_ok(json@),
        ensures
            inventory_tally(json@, any_name(), tally_view(r@)),
            tally_sum(tally_view(r@)) == inventory_count(json@, None),
    {
        let mut r: Vec<(String, i32)> = Vec::new();
        let (vs, limit) = match Self::inventory_values(json) {
            Some(p) => p,
            None => return r,
        };
        let ghost vsv = views(vs@);
        let mut logical: i32 = 0;
        let mut i: usize = 0;
        proof {
            assert(tally_view(r@) =~= Seq::<(Seq<char>, i32)>::empty());
        }
        while i < vs.len() && !Self::passed(limit, logical)
            invariant
                vsv == views(vs@),
                vs@.len() <= i32::MAX,
                fits_upto(vsv, walk_end(vsv, limit)),
                0 <= i <= vs.len(),
                logical as int == logical_at(vsv, i as int),
                is_tally(tally_view(r@), json@, vsv.take(i as int), any_name()),
                tally_sum(tally_view(r@)) == count_where(vsv.take(i as int), counted(json@, None)),
                inventory_slots(json@) == Some((vsv, limit)),
                forall|k: int| 0 <= k < i ==> !#[trigger] walk_stop(vsv, limit)(k),
            decreases vs.len() - i,
        {
            proof {
                lemma_walk_step(vsv, limit, i as int);
                lemma_count_step(vsv, counted(json@, None), i as int);
            }
            let e = &vs[i];
            let ghost t = tally_view(r@);
            match Self::counted_name(json, e) {
                Some(n) => {
                    let pos = Self::tally_pos(&r, n.as_str());
                    proof {
                        lemma_tally_add(t, json@, vsv, i as int, pos as int);
                    }
                    if pos < r.len() && str_eq(r[pos].0.as_str(), n.as_str()) {
                        let (nm, c) = r.remove(pos);
                        r.insert(pos, (nm, c + 1));
                        proof {
                            assert(tally_view(r@) =~= t.update(pos as int, (t[pos as int].0, (t[pos as int].1 + 1) as i32)));
                            lemma_tally_sum_update(t, pos as int, (t[pos as int].0, (t[pos as int].1 + 1) as i32));
                        }
                    } else {
                        r.insert(pos, (n, 1));
                        proof {
                            assert(tally_view(r@) =~= t.insert(pos as int, (entry_name(json@, vsv[i as int]), 1i32)));
                            lemma_tally_sum_insert(t, pos as int, (entry_name(json@, vsv[i as int]), 1i32));
                        }
                    }
                },
                None => {
                    proof {
                        lemma_tally_skip(t, json@, vsv, i as int);
                    }
                },
            }
            let (_, w) = Self::width_of(e);
            logical = logical + w;
            i += 1;
        }
        proof {
            lemma_walk_end(vsv, limit, i as int);
        }
        r
    }

    /// Whether the editor offers an item by name (see [`known_item`]).
    fn is_known_item(n: &str) -> (r: bool)
        ensures
            r == known_item(n@),
    {
        str_eq(n, GRAIL_UPGRADE_CODE) || str_eq(n, BOMB_UPGRADE_CODE) || str_eq(n, MINE_UPGRADE_CODE)
            || str_eq(n, PHILOSOPHERS_STONE_UPGRADE_CODE) || str_eq(n, SIZE_UPGRADE_CODE) || str_eq(
            n,
            WARHAMMER_UPGRADE_CODE,
        ) || str_eq(n, CORNUCOPIA_UPGRADE_CODE) || str_eq(n, WAR_HORN_UPGRADE_CODE)
    }

    /// The inventory items the editor does not offer by name, with how many
    /// there are, in the order of their names.
    pub fn get_undeclared_inventory_items(json: &Json) -> (r: Vec<(String, i32)>)
        requires
            inventory_ok(json@),
        ensures
            inventory_tally(json@, undeclared(), tally_view(r@)),
    {
        let all = Self::get_all_inventory_items(json);
        let ghost av = tally_view(all@);
        let ghost w = match inventory_slots(json@) {
            Some((vs, limit)) => vs.take(walk_end(vs, limit)),
            None => Seq::<JVal>::empty(),
        };
        let mut out: Vec<(String, i32)> = Vec::new();
        let mut i: usize = 0;
        proof {
            assert(tally_view(out@) =~= Seq::<(Seq<char>, i32)>::empty());
            if inventory_slots(json@) is None {
                assert(av.len() == 0);
            }
        }
        while i < all.len()
            invariant
                av == tally_view(all@),
                is_tally(av, json@, w, any_name()),
                0 <= i <= all.len(),
                out@.len() <= i,
                is_tally_part(tally_view(out@), json@, w, undeclared()),
                forall|c: int, k: int|
                    0 <= c < out@.len() && i <= k < av.len() ==> key_lt(
                        #[trigger] tally_view(out@)[c].0,
                        #[trigger] av[k].0,
                    ),
                forall|a: int|
                    0 <= a < i && !known_item(#[trigger] av[a].0) ==> exists|c: int|
                        0 <= c < out@.len() && #[trigger] tally_view(out@)[c].0 == av[a].0,
            decreases all.len() - i,
        {
            let ghost ov = tally_view(out@);
            if !Self::is_known_item(all[i].0.as_str()) {
                out.push((all[i].0.clone(), all[i].1));
                proof {
                    let nv = tally_view(out@);
                    assert(nv =~= ov.push(av[i as int]));
                    assert forall|a: int|
                        0 <= a < i + 1 && !known_item(#[trigger] av[a].0) implies exists|c: int|
                            0 <= c < out@.len() && #[trigger] tally_view(out@)[c].0 == av[a].0 by {
                        if a < i {
                            let c = choose|c: int| 0 <= c < ov.len() && #[trigger] ov[c].0 == av[a].0;
                            assert(nv[c] == ov[c]);
                        } else {
                            assert(nv[ov.len() as int] == av[i as int]);
                        }
                    }
                }
            }
            i += 1;
        }
        proof {
            let ov = tally_view(out@);
            assert forall|m: Seq<char>|
                m.len() > 0 && undeclared()(m) && count_where(w, #[trigger] counted(json@, Some(m))) > 0 implies exists|
                c: int,
            | 0 <= c < ov.len() && (#[trigger] ov[c]).0 == m by {
                assert(any_name()(m));
                let a = choose|a: int| 0 <= a < av.len() && (#[trigger] av[a]).0 == m;
                assert(!known_item(av[a].0));
                let c = choose|c: int| 0 <= c < out@.len() && #[trigger] tally_view(out@)[c].0 == av[a].0;
                assert(ov[c].0 == m);
            }
            assert(is_tally(ov, json@, w, undeclared()));
            match inventory_slots(json@) {
                Some((vs, limit)) => {},
                None => {
                    assert(av.len() == 0);
                },
            }
        }
        out
    }

    /// Whether a hero record carries an upgrade named `code` (see [`carries`]).
    fn hero_carries(json: &Json, rec: &Json, code: &str, Ghost(key): Ghost<Seq<char>>) -> (r: bool)
        ensures
            r == carries(json@, code@)((key, rec@)),
    {
        if !class_name_has(rec, "HeroDefinition") {
            return false;
        }
        match members_vec(rec) {
            Some(ms) => match find_named(ms, "upgrade") {
                Some(k) => match get_i64(&ms[k], "id") {
                    Some(id) => {
                        let name = Self::read_upgrade_record_name(json, id);
                        str_eq(name.as_str(), code)
                    },
                    None => false,
                },
                None => false,
            },
            None => {
                proof {
                    lemma_first_none(Seq::<JVal>::empty(), named("upgrade"@));
                }
                false
            },
        }
    }

    /// How many heroes carry an upgrade named `upgrade_code` (see [`hero_count`]).
    pub fn get_hero_item_count(json: &Json, upgrade_code: &str) -> (r: i32)
        requires
            records_countable(json@),
        ensures
            r as int == hero_count(json@, upgrade_code@),
    {
        let es = match json.get("records") {
            Some(rs) => match rs.as_object() {
                Some(es) => es,
                None => return 0,
            },
            None => return 0,
        };
        let ghost ev = entry_views(es@);
        let ghost p = carries(json@, upgrade_code@);
        let mut count: i32 = 0;
        let mut i: usize = 0;
        while i < es.len()
            invariant
                ev == entry_views(es@),
                records(json@).as_object() == Some(ev),
                es@.len() <= i32::MAX,
                p == carries(json@, upgrade_code@),
                0 <= i <= es.len(),
                count as int == count_where(ev.take(i as int), p),
                count <= i,
            decreases es.len() - i,
        {
            proof {
                lemma_count_step(ev, p, i as int);
            }
            if Self::hero_carries(json, &es[i].1, upgrade_code, Ghost(ev[i as int].0)) {
                count = count + 1;
            }
            i += 1;
        }
        proof {
            assert(ev.take(es.len() as int) =~= ev);
        }
        count
    }

    /// How many heroes carry a grail.
    pub fn get_hero_grail_count(json: &Json) -> (r: i32)
        requires
            records_countable(json@),
        ensures
            r as int == hero_count(json@, GRAIL_UPGRADE_CODE@),
    {
        Self::get_hero_item_count(json, GRAIL_UPGRADE_CODE)
    }

    /// How many items named `upgrade_code` there are, carried or in the inventory.
    pub fn get_total_item_count(json: &Json, upgrade_code: &str) -> (r: i32)
        requires
            records_countable(json@),
            inventory_ok(json@),
            hero_count(json@, upgrade_code@) + inventory_count(json@, Some(upgrade_code@)) <= i32::MAX,
        ensures
            r as int == hero_count(json@, upgrade_code@) + inventory_count(json@, Some(upgrade_code@)),
    {
        let h = Self::get_hero_item_count(json, upgrade_code);
        let n = Self::get_inventory_item_count(json, upgrade_code);
        h + n
    }

    /// How many grails there are, carried or in the inventory.
    pub fn get_total_grail_count(json: &Json) -> (r: i32)
        requires
            records_countable(json@),
            inventory_ok(json@),
            hero_count(json@, GRAIL_UPGRADE_CODE@) + inventory_count(json@, Some(GRAIL_UPGRADE_CODE@))
                <= i32::MAX,
        ensures
            r as int == hero_count(json@, GRAIL_UPGRADE_CODE@) + inventory_count(
                json@,
                Some(GRAIL_UPGRADE_CODE@),
            ),
    {
        Self::get_hero_grail_count(json) + Self::get_inventory_grail_count(json)
    }

    /// The grail count (the carried and the stored ones).
    pub fn get_grail_count(json: &Json) -> (r: i32)
        requires
            records_countable(json@),
            inventory_ok(json@),
            hero_count(json@, GRAIL_UPGRADE_CODE@) + inventory_count(json@, Some(GRAIL_UPGRADE_CODE@))
                <= i32::MAX,
        ensures
            r as int == hero_count(json@, GRAIL_UPGRADE_CODE@) + inventory_count(
                json@,
                Some(GRAIL_UPGRADE_CODE@),
            ),
    {
        Self::get_total_grail_count(json)
    }
}

} // verus!
