use vstd::prelude::*;

use crate::identity::{file_capability, grants, Identity};
use crate::order::{entry_order, sort_entries};
use crate::resolver::probe;

verus! {

/// One child of a directory as a listing shows it.
#[derive(Debug)]
pub struct DirEntry {
    pub name: String,
    pub is_file: bool,
}

impl View for DirEntry {
    type V = (Seq<char>, bool);

    open spec fn view(&self) -> (Seq<char>, bool) {
        (self.name@, self.is_file)
    }
}

pub open spec fn entries_view(v: Seq<DirEntry>) -> Seq<(Seq<char>, bool)> {
    v.map_values(|e: DirEntry| e@)
}

/// The visible listing of a directory: every raw entry in its order, where a child that is an
/// overlay root (`overlay[i]` for entry `i`) shows as a file.
pub open spec fn merge_spec(entries: Seq<(Seq<char>, bool)>, overlay: Seq<bool>) -> Seq<
    (Seq<char>, bool),
> {
    Seq::new(entries.len(), |i: int| (entries[i].0, entries[i].1 || probe(overlay, i)))
}

/// Whether some account among `accounts` with id `id` grants `caller` file access.
pub open spec fn granting_id_among(caller: i64, accounts: Seq<Identity>, id: i64) -> bool {
    exists|j: int|
        0 <= j < accounts.len() && (#[trigger] accounts[j]).id == id && grants(
            accounts[j],
            file_capability(),
            caller,
        )
}

/// The `Shared` listing of `caller`: one directory per distinct account among `accounts` that
/// grants `caller` file access, named by its username, in the order of first appearance.
pub open spec fn shared_listing_spec(caller: i64, accounts: Seq<Identity>) -> Seq<
    (Seq<char>, bool),
>
    decreases accounts.len(),
{
    if accounts.len() == 0 {
        Seq::empty()
    } else {
        let prev = shared_listing_spec(caller, accounts.drop_last());
        let a = accounts.last();
        if grants(a, file_capability(), caller) && !granting_id_among(
            caller,
            accounts.drop_last(),
            a.id,
        ) {
            prev.push((a.username@, false))
        } else {
            prev
        }
    }
}

/// Merges a raw listing with the overlay probes of its children (`overlay[i]` for
/// `entries[i]`): overlay roots show as files, every other entry passes through unchanged, and
/// the result comes in listing order.
pub fn merge_listing(entries: &Vec<DirEntry>, overlay: &Vec<bool>) -> (r: Vec<DirEntry>)
    ensures
        entries_view(r@) == merge_spec(entries_view(entries@), overlay@).sort_by(entry_order()),
{
    let mut out: Vec<DirEntry> = Vec::new();
    let mut i: usize = 0;
    while i < entries.len()
        invariant
            i <= entries@.len(),
            entries_view(out@) =~= merge_spec(entries_view(entries@), overlay@).take(i as int),
        decreases entries@.len() - i,
    {
        let e = &entries[i];
        let is_overlay = i < overlay.len() && overlay[i];
        let ghost before = out@;
        out.push(DirEntry { name: e.name.clone(), is_file: e.is_file || is_overlay });
        proof {
            assert(entries_view(entries@)[i as int] == e@);
            assert(entries_view(out@) =~= entries_view(before).push(
                merge_spec(entries_view(entries@), overlay@)[i as int],
            ));
        }
        i = i + 1;
    }
    assert(merge_spec(entries_view(entries@), overlay@).take(entries@.len() as int) =~= merge_spec(
        entries_view(entries@),
        overlay@,
    ));
    sort_entries(out)
}

/// The listing of the caller's own `Shared` directory, made from the accounts that the account
/// store returned as granting `caller` access. Accounts that grant nothing are left out, an
/// account that appears twice is listed once, and the result comes in listing order.
pub fn shared_root_listing(caller: i64, accounts: &Vec<Identity>) -> (r: Vec<DirEntry>)
    ensures
        entries_view(r@) == shared_listing_spec(caller, accounts@).sort_by(entry_order()),
{
    let mut out: Vec<DirEntry> = Vec::new();
    let mut seen: Vec<i64> = Vec::new();
    let mut i: usize = 0;
    while i < accounts.len()
        invariant
            i <= accounts@.len(),
            entries_view(out@) == shared_listing_spec(caller, accounts@.take(i as int)),
            forall|id: i64|
                seen@.contains(id) <==> granting_id_among(caller, accounts@.take(i as int), id),
        decreases accounts@.len() - i,
    {
        let a = &accounts[i];
        let ghost pre = accounts@.take(i as int);
        let ghost next = accounts@.take(i as int + 1);
        proof {
            assert(next.drop_last() =~= pre);
            assert(next.last() == *a);
        }
        let grants_caller = a.grants_file_access(caller);
        let mut already = false;
        let mut j: usize = 0;
        while j < seen.len()
            invariant
                j <= seen@.len(),
                already == (exists|k: int| 0 <= k < j && seen@[k] == a.id),
            decreases seen@.len() - j,
        {
            if seen[j] == a.id {
                already = true;
            }
            j = j + 1;
        }
        assert(already == seen@.contains(a.id));
        let ghost old_seen = seen@;
        if grants_caller && !already {
            let ghost before = out@;
            out.push(DirEntry { name: a.username.clone(), is_file: false });
            seen.push(a.id);
            proof {
                assert(entries_view(out@) =~= entries_view(before).push((a.username@, false)));
            }
        }
        proof {
            assert forall|id: i64|
                seen@.contains(id) <==> granting_id_among(caller, next, id) by {
                let g_next = granting_id_among(caller, next, id);
                let g_pre = granting_id_among(caller, pre, id);
                if g_next {
                    let k = choose|k: int|
                        0 <= k < next.len() && (#[trigger] next[k]).id == id && grants(
                            next[k],
                            file_capability(),
                            caller,
                        );
                    if k < pre.len() {
                        assert(pre[k] == next[k]);
                        assert(g_pre);
                    } else {
                        assert(next[k] == *a);
                    }
                }
                if g_pre {
                    let k = choose|k: int|
                        0 <= k < pre.len() && (#[trigger] pre[k]).id == id && grants(
                            pre[k],
                            file_capability(),
                            caller,
                        );
                    assert(next[k] == pre[k]);
                }
                if grants_caller && id == a.id {
                    assert(next[i as int] == *a);
                    assert(g_next);
                }
                if grants_caller && !already {
                    assert(seen@ == old_seen.push(a.id));
                    if seen@.contains(id) {
                        let k = choose|k: int| 0 <= k < seen@.len() && seen@[k] == id;
                        if k < old_seen.len() {
                            assert(old_seen[k] == id);
                        }
                    }
                    if old_seen.contains(id) {
                        let k = choose|k: int| 0 <= k < old_seen.len() && old_seen[k] == id;
                        assert(seen@[k] == id);
                    }
                    if id == a.id {
                        assert(seen@[old_seen.len() as int] == id);
                    }
                }
            }
        }
        i = i + 1;
    }
    proof {
        assert(accounts@.take(accounts@.len() as int) =~= accounts@);
    }
    sort_entries(out)
}

} // verus!
