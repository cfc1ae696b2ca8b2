//! Setting the coin bank.
use vstd::prelude::*;
use crate::error::{SaveError, SaveErr, unit_result};
use crate::json::{
    JVal, Json, entry_views, num_of_int, lemma_ensure_key_get, lemma_set_same, lemma_set_set,
};
use crate::save_manager::SaveManager;
use crate::save_model::{find_named, members_of, members_vec, named, records};
use crate::search::{first_index, lemma_first_facts, lemma_first_is, lemma_first_none};

verus! {

/// A record whose `members` array has a `coinBank` member.
pub open spec fn coin_target() -> spec_fn((Seq<char>, JVal)) -> bool {
    |e: (Seq<char>, JVal)|
        members_of(e.1) is Some && first_index(members_of(e.1).unwrap(), named("coinBank"@)) is Some
}

/// The walk over the records reaches record `k`: no earlier one has a `coinBank` member.
pub open spec fn coin_reached(es: Seq<(Seq<char>, JVal)>, k: int) -> bool {
    forall|m: int| 0 <= m < k ==> !coin_target()(#[trigger] es[m])
}

/// Every record that the walk reaches is an object (or `Null`).
pub open spec fn walk_entries_ok(es: Seq<(Seq<char>, JVal)>) -> bool {
    forall|k: int| 0 <= k < es.len() && coin_reached(es, k) ==> (#[trigger] es[k]).1.can_index_mut()
}

/// Setting the coin bank does not panic: the document is an object (or
/// `Null`), and every record the walk reaches is an object (or `Null`), since
/// each is indexed by `members` for writing.
pub open spec fn coin_walk_ok(j: JVal) -> bool {
    &&& j.can_index_mut()
    &&& records(j).as_object() matches Some(es) ==> walk_entries_ok(es)
}

/// The records once the walk has passed the first `t` of them and set the coin bank in record `t`.
pub open spec fn bank_entries(es: Seq<(Seq<char>, JVal)>, t: int, coins: i32) -> Seq<(Seq<char>, JVal)> {
    Seq::new(
        es.len(),
        |k: int|
            if k < t {
                touched(es[k])
            } else if k == t {
                (es[k].0, bank_set(es[k].1, coins))
            } else {
                es[k]
            },
    )
}

/// The records once the walk has passed them all.
pub open spec fn touched_all(es: Seq<(Seq<char>, JVal)>) -> Seq<(Seq<char>, JVal)> {
    es.map_values(|e: (Seq<char>, JVal)| touched(e))
}

/// A record after `record["members"]` is used for writing.
pub open spec fn touched(e: (Seq<char>, JVal)) -> (Seq<char>, JVal) {
    (e.0, e.1.ensure_key("members"@))
}

/// A record whose first `coinBank` member takes `coins`.
pub open spec fn bank_set(r: JVal, coins: i32) -> JVal {
    let ms = members_of(r).unwrap();
    let i = first_index(ms, named("coinBank"@)).unwrap();
    r.set("members"@, JVal::Array(ms.update(i, ms[i].set("value"@, JVal::Num(num_of_int(coins as int))))))
}

/// Setting the coin bank: the first `coinBank` member of the first record that
/// has one takes the new amount; the records walked before it get a `members`
/// entry when they had none.
pub open spec fn set_coin_bank(j: JVal, coins: i32) -> (JVal, Result<(), SaveErr>) {
    let j1 = j.ensure_key("records"@);
    match j1.get("records"@).as_object() {
        None => (j1, Err(SaveErr::RecordsNotFound)),
        Some(es) => match first_index(es, coin_target()) {
            Some(t) => (j1.set("records"@, JVal::Object(bank_entries(es, t, coins))), Ok(())),
            None => (j1.set("records"@, JVal::Object(touched_all(es))), Err(SaveErr::CoinBankNotFound)),
        },
    }
}

impl SaveManager {
    /// Whether the coin bank can be set without a panic (see [`coin_walk_ok`]).
    pub fn coin_bank_editable(json: &Json) -> (r: bool)
        ensures
            r == coin_walk_ok(json@),
    {
        if !(json.is_object() || json.is_null()) {
            return false;
        }
        let es = match json.get("records") {
            Some(rs) => match rs.as_object() {
                Some(es) => es,
                None => return true,
            },
            None => return true,
        };
        let ghost ev = entry_views(es@);
        assert(records(json@).as_object() == Some(ev));
        assert(json@.can_index_mut());
        assert(coin_walk_ok(json@) == walk_entries_ok(ev));
        let mut i: usize = 0;
        while i < es.len()
            invariant
                ev == entry_views(es@),
                coin_walk_ok(json@) == walk_entries_ok(ev),
                0 <= i <= es@.len(),
                forall|k: int| 0 <= k < i ==> !coin_target()(#[trigger] ev[k]),
                forall|k: int| 0 <= k < i ==> (#[trigger] ev[k]).1.can_index_mut(),
            decreases es@.len() - i,
        {
            let r = &es[i].1;
            assert(r@ == ev[i as int].1);
            if !(r.is_object() || r.is_null()) {
                assert(coin_reached(ev, i as int));
                assert(!ev[i as int].1.can_index_mut());
                assert(!walk_entries_ok(ev));
                return false;
            }
            let found = match members_vec(r) {
                Some(ms) => find_named(ms, "coinBank").is_some(),
                None => false,
            };
            if found {
                assert(coin_target()(ev[i as int]));
                assert forall|k: int| 0 <= k < ev.len() && coin_reached(ev, k) implies (#[trigger] ev[k]).1.can_index_mut() by {
                    if k > i {
                        assert(!coin_target()(ev[i as int]));
                    }
                }
                assert(walk_entries_ok(ev));
                return true;
            }
            i += 1;
        }
        assert(walk_entries_ok(ev));
        true
    }

    /// Sets the coin bank (see [`set_coin_bank`]).
    pub fn modify_coin_bank(json: &mut Json, new_coins: i32) -> (r: Result<(), SaveError>)
        requires
            coin_walk_ok(old(json)@),
        ensures
            (final(json)@, unit_result(r)) == set_coin_bank(old(json)@, new_coins),
    {
        let ghost j0 = json@;
        json.ensure_key("records");
        let ghost j1 = json@;
        proof {
            lemma_ensure_key_get(j0, "records"@);
        }
        let recs = json.take("records");
        let mut es = match recs {
            Json::Object(es) => es,
            other => {
                json.set("records", other);
                proof {
                    lemma_set_set(j1, "records"@, JVal::Null, j1.get("records"@));
                    lemma_set_same(j1, "records"@);
                }
                return Err(SaveError::RecordsNotFound);
            },
        };
        let ghost ev = entry_views(es@);
        assert(j1.get("records"@) == JVal::Object(ev));
        let n = es.len();
        let mut i: usize = 0;
        while i < n
            invariant
                n == ev.len(),
                n == es@.len(),
                0 <= i <= n,
                json@ == j1.set("records"@, JVal::Null),
                j1 is Object && j1.has_key("records"@),
                j1 == j0.ensure_key("records"@),
                j0 == old(json)@,
                j1.get("records"@) == JVal::Object(ev),
                j1.get("records"@) == j0.get("records"@),
                coin_walk_ok(j0),
                entry_views(es@) =~= Seq::new(
                    n as nat,
                    |k: int| if k < i { touched(ev[k]) } else { ev[k] },
                ),
                forall|k: int| 0 <= k < i ==> !coin_target()(#[trigger] ev[k]),
            decreases n - i,
        {
            let ghost before = entry_views(es@);
            let ghost ei = es@[i as int];
            assert(before[i as int] == ev[i as int]);
            assert(ei.0@ == ev[i as int].0 && ei.1@ == ev[i as int].1);
            let mut entry = (String::new(), Json::Null);
            std::mem::swap(&mut entry, &mut es[i]);
            let (k, mut r) = entry;
            assert(r@ == ev[i as int].1 && k@ == ev[i as int].0);
            assert(coin_reached(ev, i as int));
            assert(records(j0).as_object() == Some(ev));
            assert(walk_entries_ok(ev));
            assert(ev[i as int].1.can_index_mut());
            let ghost r0 = r@;
            r.ensure_key("members");
            proof {
                lemma_ensure_key_get(r0, "members"@);
            }
            let found = match members_vec(&r) {
                Some(ms) => find_named(ms, "coinBank"),
                None => None,
            };
            match found {
                Some(m) => {
                    proof {
                        lemma_first_is(ev, coin_target(), i as int);
                        lemma_first_facts(members_of(r0).unwrap(), named("coinBank"@));
                    }
                    let ghost rv = r@;
                    let mut ms = r.take("members");
                    let ghost msv = ms@.as_array().unwrap();
                    let mut mem = ms.take_at(m);
                    mem.set("value", Json::from_i64(new_coins as i64));
                    let ghost mv = mem@;
                    ms.put_at(m, mem);
                    assert(ms@.as_array().unwrap() =~= msv.update(m as int, mv));
                    let ghost msv2 = ms@;
                    r.set("members", ms);
                    proof {
                        lemma_set_set(rv, "members"@, JVal::Null, msv2);
                    }
                    let ghost rv2 = r@;
                    assert(rv2 == bank_set(r0, new_coins));
                    es.set(i, (k, r));
                    let ghost es2 = entry_views(es@);
                    assert(es2 =~= before.update(i as int, (ev[i as int].0, rv2)));
                    json.set("records", Json::Object(es));
                    proof {
                        lemma_set_set(j1, "records"@, JVal::Null, JVal::Object(es2));
                        assert(es2 =~= bank_entries(ev, i as int, new_coins));
                        assert(j1 == j0.ensure_key("records"@));
                        assert(first_index(ev, coin_target()) == Some(i as int));
                        assert(json@ == j1.set("records"@, JVal::Object(es2)));
                        assert(j1.get("records"@).as_object() == Some(ev));
                    }
                    return Ok(());
                },
                None => {
                    let ghost rv = r@;
                    assert(rv == touched(ev[i as int]).1);
                    assert(!coin_target()(ev[i as int]));
                    es.set(i, (k, r));
                    assert(entry_views(es@) =~= before.update(i as int, (k@, rv)));
                },
            }
            i += 1;
        }
        proof {
            lemma_first_none(ev, coin_target());
        }
        let ghost es2 = entry_views(es@);
        json.set("records", Json::Object(es));
        proof {
            lemma_set_set(j1, "records"@, JVal::Null, JVal::Object(es2));
            assert(es2 =~= touched_all(ev));
        }
        Err(SaveError::CoinBankNotFound)
    }
}

} // verus!
