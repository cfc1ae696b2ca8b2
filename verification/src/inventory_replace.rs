//! Renaming every inventory item of one code to another.
use vstd::prelude::*;
use crate::error::{SaveError, SaveErr, count_result};
use crate::hero_edit::{close_record, open_record, put_members, put_record, slot};
use crate::inventory::entry_type;
use crate::inventory_edit::array_values;
use crate::json::{JVal, Json, views, lemma_set_set};
use crate::save_manager::SaveManager;
use crate::save_model::{
    get_i64, get_str, id_key, inventory_refs, members_of, record_by_id, record_of, records,
};
use crate::search::{count_where, first_index, lemma_count_step, lemma_first_is, lemma_first_none};
use crate::text::{decimal, owned, str_eq};
use crate::upgrade_edit::{records_writable, lemma_writable, lemma_put_keeps_writable};

verus! {

/// A `name` member whose value is `code`.
pub open spec fn names_item(code: Seq<char>) -> spec_fn(JVal) -> bool {
    |m: JVal| m.get("name"@).as_str() == Some("name"@) && m.get("value"@).as_str() == Some(code)
}

/// A `Reference` entry to a record that has a `name` member of value `code`.
pub open spec fn holds_item(j: JVal, code: Seq<char>) -> spec_fn(JVal) -> bool {
    |e: JVal|
        entry_type(e) == Some("Reference"@) && e.get("id"@).as_i64() is Some && {
            let r = record_by_id(j, e.get("id"@).as_i64().unwrap() as int);
            r is Object && members_of(r) is Some && first_index(members_of(r).unwrap(), names_item(code)) is Some
        }
}

/// The ids the entries that hold an item named `code` refer to, in order.
pub open spec fn item_ids(j: JVal, vs: Seq<JVal>, code: Seq<char>) -> Seq<i64>
    decreases vs.len(),
{
    if vs.len() == 0 {
        Seq::empty()
    } else {
        let prev = item_ids(j, vs.drop_last(), code);
        if holds_item(j, code)(vs.last()) {
            prev.push(vs.last().get("id"@).as_i64().unwrap())
        } else {
            prev
        }
    }
}

/// The members with every `name` member of value `from` given the value `to`.
pub open spec fn rename_members(ms: Seq<JVal>, from: Seq<char>, to: Seq<char>) -> Seq<JVal> {
    Seq::new(
        ms.len(),
        |k: int|
            if names_item(from)(ms[k]) {
                ms[k].set("value"@, JVal::Str(to))
            } else {
                ms[k]
            },
    )
}

/// Renaming in record `id`: the document and how many members changed.
pub open spec fn rename_in_record(j: JVal, id: i64, from: Seq<char>, to: Seq<char>) -> (JVal, nat) {
    let key = decimal(id as int);
    let r = slot(j, key);
    if r is Object && members_of(r) is Some {
        let ms = members_of(r).unwrap();
        (put_members(j, key, rename_members(ms, from, to)), count_where(ms, names_item(from)))
    } else {
        (put_record(j, key, r), 0)
    }
}

/// Renaming in each record of `ids` in turn: the document and how many members changed.
pub open spec fn rename_all(j: JVal, ids: Seq<i64>, from: Seq<char>, to: Seq<char>) -> (JVal, nat)
    decreases ids.len(),
{
    if ids.len() == 0 {
        (j, 0)
    } else {
        let (j1, c1) = rename_all(j, ids.drop_last(), from, to);
        let (j2, c2) = rename_in_record(j1, ids.last(), from, to);
        (j2, c1 + c2)
    }
}

/// The ids of the inventory's records that hold an item named `from`.
pub open spec fn inventory_item_ids(j: JVal, from: Seq<char>) -> Seq<i64> {
    match inventory_refs(j) {
        Ok((_, aid)) => match array_values(j, aid) {
            Some(vs) => item_ids(j, vs, from),
            None => Seq::empty(),
        },
        Err(_) => Seq::empty(),
    }
}

/// Renaming every inventory item named `from` to `to`: the document and how
/// many names changed, refused when none did.
pub open spec fn replace_item(j: JVal, from: Seq<char>, to: Seq<char>) -> (JVal, Result<i32, SaveErr>) {
    match inventory_refs(j) {
        Err(e) => (j, Err(e)),
        Ok(_) => {
            let (j2, c) = rename_all(j, inventory_item_ids(j, from), from, to);
            if c == 0 {
                (j2, Err(SaveErr::ItemNotFound(from)))
            } else {
                (j2, Ok(c as i32))
            }
        },
    }
}

/// A prefix of the ids renames no more members than all of them.
proof fn lemma_rename_all_grows(j: JVal, ids: Seq<i64>, from: Seq<char>, to: Seq<char>, k: int)
    requires
        0 <= k <= ids.len(),
    ensures
        rename_all(j, ids.take(k), from, to).1 <= rename_all(j, ids, from, to).1,
    decreases ids.len() - k,
{
    if k < ids.len() {
        lemma_rename_all_grows(j, ids, from, to, k + 1);
        assert(ids.take(k + 1).drop_last() =~= ids.take(k));
    } else {
        assert(ids.take(k) =~= ids);
    }
}

impl SaveManager {
    /// Whether a member is a `name` member of value `code` (see [`names_item`]).
    fn is_item_name(m: &Json, code: &str) -> (r: bool)
        ensures
            r == names_item(code@)(m@),
    {
        let is_name = match get_str(m, "name") {
            Some(n) => str_eq(n, "name"),
            None => false,
        };
        is_name && match get_str(m, "value") {
            Some(v) => str_eq(v, code),
            None => false,
        }
    }

    /// Whether an entry holds an item named `code` (see [`holds_item`]).
    fn entry_holds_item(json: &Json, e: &Json, code: &str) -> (r: Option<i64>)
        ensures
            r is Some == holds_item(json@, code@)(e@),
            r matches Some(id) ==> e@.get("id"@).as_i64() == Some(id),
    {
        let is_ref = match get_str(e, "type") {
            Some(t) => str_eq(t, "Reference"),
            None => false,
        };
        if !is_ref {
            return None;
        }
        let id = match get_i64(e, "id") {
            Some(id) => id,
            None => return None,
        };
        let key = id_key(id);
        let rec = match record_of(json, key.as_str()) {
            Some(r) => r,
            None => return None,
        };
        if !rec.is_object() {
            return None;
        }
        let ms = match rec.get("members") {
            Some(m) => match m.as_array() {
                Some(ms) => ms,
                None => return None,
            },
            None => return None,
        };
        let ghost mv = views(ms@);
        assert(members_of(rec@) == Some(mv));
        let mut k: usize = 0;
        while k < ms.len()
            invariant
                mv == views(ms@),
                e@.get("id"@).as_i64() == Some(id),
                entry_type(e@) == Some("Reference"@),
                record_by_id(json@, id as int) == rec@,
                rec@ is Object,
                members_of(rec@) == Some(mv),
                0 <= k <= ms.len(),
                forall|i: int| 0 <= i < k ==> !names_item(code@)(#[trigger] mv[i]),
            decreases ms.len() - k,
        {
            if Self::is_item_name(&ms[k], code) {
                proof {
                    lemma_first_is(mv, names_item(code@), k as int);
                }
                return Some(id);
            }
            k += 1;
        }
        proof {
            lemma_first_none(mv, names_item(code@));
        }
        None
    }

    /// Renames the `name` members of value `from` in record `id` (see
    /// [`rename_in_record`]); gives how many changed.
    fn rename_in_record_value(json: &mut Json, id: i64, from: &str, to: &str) -> (r: usize)
        requires
            records_writable(old(json)@),
        ensures
            final(json)@ == rename_in_record(old(json)@, id, from@, to@).0,
            r as int == rename_in_record(old(json)@, id, from@, to@).1,
            records_writable(final(json)@),
    {
        let ghost j0 = json@;
        let key = id_key(id);
        proof {
            lemma_writable(j0, key@);
        }
        let (recs, mut rec) = open_record(json, key.as_str());
        let ghost rv = rec@;
        let mut c: usize = 0;
        let is_arr = rec.is_object() && match rec.get("members") {
            Some(m) => m.as_array().is_some(),
            None => false,
        };
        if is_arr {
            let ms = rec.take("members");
            let mut items = match ms {
                Json::Array(items) => items,
                _ => Vec::new(),
            };
            let ghost mv = views(items@);
            let mut k: usize = 0;
            while k < items.len()
                invariant
                    mv.len() == items@.len(),
                    0 <= k <= items.len(),
                    c as int == count_where(mv.take(k as int), names_item(from@)),
                    c <= k,
                    forall|i: int| 0 <= i < k ==> #[trigger] views(items@)[i] == rename_members(mv, from@, to@)[i],
                    forall|i: int| k <= i < items@.len() ==> #[trigger] views(items@)[i] == mv[i],
                decreases items.len() - k,
            {
                proof {
                    lemma_count_step(mv, names_item(from@), k as int);
                }
                let ghost before = views(items@);
                assert(before[k as int] == items@[k as int]@);
                assert(before[k as int] == mv[k as int]);
                if Self::is_item_name(&items[k], from) {
                    let mut m = Json::Null;
                    std::mem::swap(&mut m, &mut items[k]);
                    m.set("value", Json::from_str(to));
                    let ghost mv2 = m@;
                    items.set(k, m);
                    assert(views(items@) =~= before.update(k as int, mv2));
                    c = c + 1;
                } else {
                    assert(views(items@) == before);
                }
                assert(mv.take(k + 1).drop_last() =~= mv.take(k as int));
                k += 1;
            }
            proof {
                assert(mv.take(items.len() as int) =~= mv);
                assert(views(items@) =~= rename_members(mv, from@, to@));
            }
            let ghost iv = views(items@);
            rec.set("members", Json::Array(items));
            proof {
                lemma_set_set(rv, "members"@, JVal::Null, JVal::Array(iv));
            }
        }
        close_record(json, recs, key.as_str(), rec, Ghost(j0));
        proof {
            lemma_put_keeps_writable(j0, key@, rec@);
        }
        c
    }

    /// The ids the inventory's entries holding an item named `code` refer to
    /// (see [`inventory_item_ids`]).
    fn collect_item_ids(json: &Json, array_id: i64, code: &str) -> (r: Vec<i64>)
        requires
            inventory_refs(json@) matches Ok((_, a)) && a == array_id,
        ensures
            r@ == inventory_item_ids(json@, code@),
    {
        let mut ids: Vec<i64> = Vec::new();
        match Self::array_values_of_record(json, array_id) {
            Some(vs) => {
                let ghost vsv = views(vs@);
                let mut i: usize = 0;
                while i < vs.len()
                    invariant
                        vsv == views(vs@),
                        0 <= i <= vs.len(),
                        ids@ == item_ids(json@, vsv.take(i as int), code@),
                    decreases vs.len() - i,
                {
                    proof {
                        assert(vsv.take(i + 1).drop_last() =~= vsv.take(i as int));
                        assert(vsv.take(i + 1).last() == vsv[i as int]);
                    }
                    match Self::entry_holds_item(json, &vs[i], code) {
                        Some(id) => ids.push(id),
                        None => {},
                    }
                    i += 1;
                }
                proof {
                    assert(vsv.take(vs.len() as int) =~= vsv);
                }
            },
            None => {},
        }
        ids
    }

    /// Renames in each record of `ids` in turn (see [`rename_all`]); gives how
    /// many names changed.
    fn rename_in_records(json: &mut Json, ids: &Vec<i64>, from: &str, to: &str) -> (r: i32)
        requires
            records_writable(old(json)@),
            rename_all(old(json)@, ids@, from@, to@).1 <= i32::MAX,
        ensures
            r >= 0,
            final(json)@ == rename_all(old(json)@, ids@, from@, to@).0,
            r as int == rename_all(old(json)@, ids@, from@, to@).1,
    {
        let ghost j0 = json@;
        let ghost all = ids@;
        let mut count: i32 = 0;
        let mut k: usize = 0;
        while k < ids.len()
            invariant
                all == ids@,
                j0 == old(json)@,
                0 <= k <= ids.len(),
                records_writable(json@),
                count >= 0,
                json@ == rename_all(j0, all.take(k as int), from@, to@).0,
                count as int == rename_all(j0, all.take(k as int), from@, to@).1,
                rename_all(j0, all, from@, to@).1 <= i32::MAX,
            decreases ids.len() - k,
        {
            proof {
                assert(all.take(k + 1).drop_last() =~= all.take(k as int));
                assert(all.take(k + 1).last() == all[k as int]);
                lemma_rename_all_grows(j0, all, from@, to@, k + 1);
            }
            let c = Self::rename_in_record_value(json, ids[k], from, to);
            count = count + c as i32;
            k += 1;
        }
        proof {
            assert(all.take(ids.len() as int) =~= all);
        }
        count
    }

    /// Renames every inventory item named `old_code` to `new_code`; gives how
    /// many names changed (see [`replace_item`]).
    pub fn replace_inventory_item(json: &mut Json, old_code: &str, new_code: &str) -> (r: Result<i32, SaveError>)
        requires
            rename_all(old(json)@, inventory_item_ids(old(json)@, old_code@), old_code@, new_code@).1 <= i32::MAX,
        ensures
            (final(json)@, count_result(r)) == replace_item(old(json)@, old_code@, new_code@),
    {
        let array_id = match Self::find_inventory_refs(json) {
            Ok((_, a)) => a,
            Err(e) => return Err(e),
        };
        let ids = Self::collect_item_ids(json, array_id, old_code);
        let count = Self::rename_in_records(json, &ids, old_code, new_code);
        if count == 0 {
            return Err(SaveError::ItemNotFound(owned(old_code)));
        }
        Ok(count)
    }

    /// The entries of the array record `aid`.
    fn array_values_of_record(json: &Json, aid: i64) -> (r: Option<&Vec<Json>>)
        ensures
            r is Some == array_values(json@, aid) is Some,
            r matches Some(v) ==> array_values(json@, aid) == Some(views(v@)),
    {
        let key = id_key(aid);
        match record_of(json, key.as_str()) {
            Some(rec) => match rec.get("values") {
                Some(v) => v.as_array(),
                None => None,
            },
            None => None,
        }
    }
}

} // verus!
