//! What the last-writer-wins merge guarantees under repeated, reordered and
//! exchanged delivery.

use crate::record::ProfileView;
use crate::registry::{merged, supersedes, RegistryMap};
use vstd::prelude::*;

verus! {

/// `m` after each record of `records` is merged into it, in order.
pub open spec fn merged_all(m: RegistryMap, records: Seq<ProfileView>) -> RegistryMap
    decreases records.len(),
{
    if records.len() == 0 {
        m
    } else {
        merged(merged_all(m, records.drop_last()), records.last())
    }
}

/// The names that `records` carry.
pub open spec fn names_of(records: Seq<ProfileView>) -> Set<Seq<char>> {
    Set::new(|n: Seq<char>| exists|i: int| 0 <= i < records.len() && records[i].username == n)
}

/// Whether `a` and `b` hold the same thing for `name`.
pub open spec fn agree_on(a: RegistryMap, b: RegistryMap, name: Seq<char>) -> bool {
    &&& a.contains_key(name) == b.contains_key(name)
    &&& a.contains_key(name) ==> a[name] == b[name]
}

/// Merging a record a second time changes nothing.
pub proof fn lemma_merge_idempotent(m: RegistryMap, r: ProfileView)
    ensures
        merged(merged(m, r), r) == merged(m, r),
{
}

/// A record and one that is strictly older for the same name, or that is for
/// another name, give the same contents in either order of arrival.
pub proof fn lemma_merge_reorder_older(m: RegistryMap, r: ProfileView, older: ProfileView)
    requires
        older.username != r.username || older.updated_at < r.updated_at,
    ensures
        merged(merged(m, r), older) == merged(merged(m, older), r),
{
    if older.username != r.username {
        assert(merged(merged(m, r), older) =~= merged(merged(m, older), r));
    }
}

/// Merging records never touches a name that none of them carries.
pub proof fn lemma_merged_all_other_names(m: RegistryMap, records: Seq<ProfileView>, name: Seq<char>)
    requires
        !names_of(records).contains(name),
    ensures
        agree_on(merged_all(m, records), m, name),
    decreases records.len(),
{
    if records.len() > 0 {
        let init = records.drop_last();
        assert(!names_of(init).contains(name)) by {
            if names_of(init).contains(name) {
                let i = choose|i: int| 0 <= i < init.len() && init[i].username == name;
                assert(records[i].username == name);
            }
        }
        lemma_merged_all_other_names(m, init, name);
        assert(records[records.len() - 1].username != name);
    }
}

/// What merging records leaves for a name depends only on what was held for
/// that name before.
pub proof fn lemma_merged_all_local(a: RegistryMap, b: RegistryMap, records: Seq<ProfileView>, name: Seq<char>)
    requires
        agree_on(a, b, name),
    ensures
        agree_on(merged_all(a, records), merged_all(b, records), name),
    decreases records.len(),
{
    if records.len() > 0 {
        lemma_merged_all_local(a, b, records.drop_last(), name);
        let ma = merged_all(a, records.drop_last());
        let mb = merged_all(b, records.drop_last());
        let r = records.last();
        if r.username == name {
            assert(supersedes(ma, r) == supersedes(mb, r));
        }
    }
}

/// Two nodes that start empty and publish records under disjoint names, then
/// receive all of each other's records without loss and in the order they
/// were published, hold identical contents. `lemma_convergence_any_order`
/// drops the order.
pub proof fn lemma_convergence(mine: Seq<ProfileView>, theirs: Seq<ProfileView>)
    requires
        names_of(mine).disjoint(names_of(theirs)),
    ensures
        merged_all(merged_all(RegistryMap::empty(), mine), theirs) == merged_all(
            merged_all(RegistryMap::empty(), theirs),
            mine,
        ),
{
    let e = RegistryMap::empty();
    let here = merged_all(merged_all(e, mine), theirs);
    let there = merged_all(merged_all(e, theirs), mine);
    assert forall|n: Seq<char>| agree_on(here, there, n) by {
        if names_of(theirs).contains(n) {
            lemma_merged_all_other_names(merged_all(e, theirs), mine, n);
            lemma_merged_all_other_names(e, mine, n);
            lemma_merged_all_local(merged_all(e, mine), e, theirs, n);
        } else {
            lemma_merged_all_other_names(merged_all(e, mine), theirs, n);
            lemma_merged_all_other_names(e, theirs, n);
            lemma_merged_all_local(e, merged_all(e, theirs), mine, n);
        }
    }
    assert(here.dom() =~= there.dom()) by {
        assert forall|n: Seq<char>| here.dom().contains(n) == there.dom().contains(n) by {
            assert(agree_on(here, there, n));
        }
    }
    assert forall|n: Seq<char>| #[trigger] here.contains_key(n) implies here[n] == there[n] by {
        assert(agree_on(here, there, n));
    }
    assert(here =~= there);
}

/// After a well-formed record is published locally, looking up its name
/// finds a record at least as new; it finds that very record when nothing
/// as new was held. No replication is involved.
pub proof fn lemma_publish_then_lookup(m: RegistryMap, r: ProfileView)
    ensures
        merged(m, r).contains_key(r.username),
        merged(m, r)[r.username].updated_at >= r.updated_at,
        supersedes(m, r) ==> merged(m, r)[r.username] == r,
{
}

/// Whether `m` holds nothing for `r`'s name as new as `r`.
pub open spec fn below(m: RegistryMap, r: ProfileView) -> bool {
    !m.contains_key(r.username) || m[r.username].updated_at < r.updated_at
}

/// Whether every record of `records` is `r` itself or a strictly older record
/// for the same name.
pub open spec fn copies_or_older(records: Seq<ProfileView>, r: ProfileView) -> bool {
    forall|i: int|
        0 <= i < records.len() ==> (#[trigger] records[i]).username == r.username && (records[i] == r
            || records[i].updated_at < r.updated_at)
}

/// Delivering `r` any number of times, interleaved in any order with older
/// records for its name, leaves exactly what delivering `r` once would: the
/// contents with `r` under its name and nothing else changed. Without `r`
/// among them, older records leave the other names alone and nothing as new
/// as `r`.
pub proof fn lemma_merge_repeated(m: RegistryMap, records: Seq<ProfileView>, r: ProfileView)
    requires
        below(m, r),
        copies_or_older(records, r),
    ensures
        records.contains(r) ==> merged_all(m, records) == m.insert(r.username, r),
        !records.contains(r) ==> below(merged_all(m, records), r) && forall|k: Seq<char>|
            k != r.username ==> agree_on(#[trigger] merged_all(m, records), m, k),
    decreases records.len(),
{
    if records.len() > 0 {
        let init = records.drop_last();
        let x = records.last();
        assert(copies_or_older(init, r)) by {
            assert forall|i: int| 0 <= i < init.len() implies (#[trigger] init[i]).username == r.username
                && (init[i] == r || init[i].updated_at < r.updated_at) by {
                assert(init[i] == records[i]);
            }
        }
        assert(x == records[records.len() - 1]);
        lemma_merge_repeated(m, init, r);
        let before = merged_all(m, init);
        let after = merged_all(m, records);
        assert(after == merged(before, x));
        if init.contains(r) {
            let i = choose|i: int| 0 <= i < init.len() && init[i] == r;
            assert(records[i] == r);
            assert(after =~= m.insert(r.username, r));
        } else if x == r {
            assert(records.contains(r));
            assert(supersedes(before, r));
            let target = m.insert(r.username, r);
            assert forall|k: Seq<char>| #[trigger] after.contains_key(k) == target.contains_key(k) && (
            after.contains_key(k) ==> after[k] == target[k]) by {
                if k != r.username {
                    assert(agree_on(merged_all(m, init), m, k));
                }
            }
            assert(after.dom() =~= target.dom());
            assert(after =~= target);
        } else {
            assert(!records.contains(r)) by {
                if records.contains(r) {
                    let i = choose|i: int| 0 <= i < records.len() && records[i] == r;
                    if i < init.len() {
                        assert(init[i] == r);
                    }
                }
            }
            assert forall|k: Seq<char>| k != r.username implies agree_on(#[trigger] merged_all(m, records), m, k) by {
                assert(agree_on(merged_all(m, init), m, k));
            }
        }
    }
}

/// Two deliveries of the same copies of `r` and older records for its name,
/// in any numbers and orders, with `r` among them, end in the same contents.
pub proof fn lemma_merge_order_free(m: RegistryMap, first: Seq<ProfileView>, second: Seq<ProfileView>, r: ProfileView)
    requires
        below(m, r),
        copies_or_older(first, r),
        copies_or_older(second, r),
        first.contains(r),
        second.contains(r),
    ensures
        merged_all(m, first) == merged_all(m, second),
        merged_all(m, first)[r.username] == r,
{
    lemma_merge_repeated(m, first, r);
    lemma_merge_repeated(m, second, r);
}

/// Whether `v` is among `records` and no record of `records` for its name is
/// newer.
pub open spec fn is_latest(records: Seq<ProfileView>, v: ProfileView) -> bool {
    &&& records.contains(v)
    &&& forall|i: int|
        0 <= i < records.len() && (#[trigger] records[i]).username == v.username ==> records[i].updated_at
            <= v.updated_at
}

/// Whether some record of `records` carries `name`.
pub open spec fn carries(records: Seq<ProfileView>, name: Seq<char>) -> bool {
    exists|i: int| 0 <= i < records.len() && (#[trigger] records[i]).username == name
}

/// Starting empty, merging records holds, for each name that they carry, one
/// of the newest records for that name, and nothing for other names.
pub proof fn lemma_merged_all_latest(records: Seq<ProfileView>)
    ensures
        forall|k: Seq<char>|
            #[trigger] merged_all(RegistryMap::empty(), records).contains_key(k) == carries(records, k),
        forall|k: Seq<char>|
            #[trigger] merged_all(RegistryMap::empty(), records).contains_key(k) ==> merged_all(
                RegistryMap::empty(),
                records,
            )[k].username == k && is_latest(records, merged_all(RegistryMap::empty(), records)[k]),
    decreases records.len(),
{
    if records.len() > 0 {
        let e = RegistryMap::empty();
        let init = records.drop_last();
        let x = records.last();
        let n = records.len() - 1;
        assert(x == records[n]);
        lemma_merged_all_latest(init);
        let before = merged_all(e, init);
        let after = merged_all(e, records);
        assert(after == merged(before, x));
        assert forall|k: Seq<char>| #[trigger] after.contains_key(k) == carries(records, k) by {
            if carries(init, k) {
                let i = choose|i: int| 0 <= i < init.len() && (#[trigger] init[i]).username == k;
                assert(records[i] == init[i]);
            }
            if carries(records, k) && k != x.username {
                let i = choose|i: int| 0 <= i < records.len() && (#[trigger] records[i]).username == k;
                assert(i < init.len());
                assert(init[i] == records[i]);
            }
        }
        assert forall|k: Seq<char>| #[trigger] after.contains_key(k) implies after[k].username == k
            && is_latest(records, after[k]) by {
            let v = after[k];
            if k == x.username && supersedes(before, x) {
                assert(v == x);
                assert(records.contains(x));
                assert forall|i: int| 0 <= i < records.len() && (#[trigger] records[i]).username == v.username
                    implies records[i].updated_at <= v.updated_at by {
                    if i < n {
                        assert(init[i] == records[i]);
                        assert(before.contains_key(k));
                        assert(is_latest(init, before[k]));
                    }
                }
            } else {
                assert(before.contains_key(k));
                assert(v == before[k]);
                assert(is_latest(init, v));
                let j = choose|j: int| 0 <= j < init.len() && init[j] == v;
                assert(records[j] == v);
                assert forall|i: int| 0 <= i < records.len() && (#[trigger] records[i]).username == v.username
                    implies records[i].updated_at <= v.updated_at by {
                    if i < n {
                        assert(init[i] == records[i]);
                    }
                }
            }
        }
    }
}

/// Two nodes that start empty and end up merging the same records, each in
/// its own order and with any repeats, hold identical contents, provided no
/// two different records for one name carry the same timestamp. Where two
/// such records exist, the one merged first is kept, so delivery in another
/// order can leave another one: publishing two records for a name with one
/// timestamp, then receiving them in the opposite order elsewhere, diverges.
pub proof fn lemma_convergence_any_order(here: Seq<ProfileView>, there: Seq<ProfileView>)
    requires
        here.to_set() == there.to_set(),
        forall|i: int, j: int|
            0 <= i < here.len() && 0 <= j < here.len() && (#[trigger] here[i]).username == (#[trigger] here[j]).username
                && here[i].updated_at == here[j].updated_at ==> here[i] == here[j],
    ensures
        merged_all(RegistryMap::empty(), here) == merged_all(RegistryMap::empty(), there),
{
    let e = RegistryMap::empty();
    let a = merged_all(e, here);
    let b = merged_all(e, there);
    lemma_merged_all_latest(here);
    lemma_merged_all_latest(there);
    assert forall|k: Seq<char>| carries(here, k) == carries(there, k) by {
        if carries(here, k) {
            let i = choose|i: int| 0 <= i < here.len() && (#[trigger] here[i]).username == k;
            assert(here.to_set().contains(here[i]));
            assert(there.contains(here[i]));
            let j = choose|j: int| 0 <= j < there.len() && there[j] == here[i];
            assert(there[j].username == k);
        }
        if carries(there, k) {
            let j = choose|j: int| 0 <= j < there.len() && (#[trigger] there[j]).username == k;
            assert(there.to_set().contains(there[j]));
            assert(here.contains(there[j]));
            let i = choose|i: int| 0 <= i < here.len() && here[i] == there[j];
            assert(here[i].username == k);
        }
    }
    assert forall|k: Seq<char>| #[trigger] a.contains_key(k) implies b.contains_key(k) && a[k] == b[k] by {
        assert(carries(here, k));
        assert(b.contains_key(k));
        let va = a[k];
        let vb = b[k];
        assert(is_latest(here, va));
        assert(is_latest(there, vb));
        let ia = choose|i: int| 0 <= i < here.len() && here[i] == va;
        let jb = choose|j: int| 0 <= j < there.len() && there[j] == vb;
        assert(there.to_set().contains(vb));
        let ib = choose|i: int| 0 <= i < here.len() && here[i] == vb;
        assert(here.to_set().contains(va));
        let ja = choose|j: int| 0 <= j < there.len() && there[j] == va;
        assert(here[ib].username == va.username);
        assert(vb.updated_at <= va.updated_at);
        assert(there[ja].username == vb.username);
        assert(va.updated_at <= vb.updated_at);
        assert(here[ia] == here[ib]);
    }
    assert(a.dom() =~= b.dom()) by {
        assert forall|k: Seq<char>| a.dom().contains(k) == b.dom().contains(k) by {
            assert(a.contains_key(k) == carries(here, k));
            assert(b.contains_key(k) == carries(there, k));
        }
    }
    assert(a =~= b);
}

} // verus!
