//! Directory listings: directories first, then by name.

use vstd::prelude::*;

use crate::ipc::{self, DirEntry};
use crate::text;
use crate::text::text_not_after;
use crate::wire::EntryView;

verus! {

/// Whether an entry may stand before another: a directory before a file, and otherwise in
/// the order of the names.
pub open spec fn entry_le(a: EntryView, b: EntryView) -> bool {
    if a.is_dir != b.is_dir {
        a.is_dir
    } else {
        text::text_le(a.name, b.name)
    }
}

/// Whether a listing is in order.
pub open spec fn in_order(s: Seq<EntryView>) -> bool {
    forall|i: int, j: int| 0 <= i <= j < s.len() ==> entry_le(#[trigger] s[i], #[trigger] s[j])
}

/// Of two texts one comes first.
pub proof fn lemma_text_total(a: Seq<char>, b: Seq<char>)
    ensures
        text::text_le(a, b) || text::text_le(b, a),
    decreases a.len(),
{
    if a.len() > 0 && b.len() > 0 && a[0] == b[0] {
        lemma_text_total(a.drop_first(), b.drop_first());
    }
}

/// The order of texts is transitive.
pub proof fn lemma_text_transitive(a: Seq<char>, b: Seq<char>, c: Seq<char>)
    requires
        text::text_le(a, b),
        text::text_le(b, c),
    ensures
        text::text_le(a, c),
    decreases a.len(),
{
    if a.len() > 0 && b.len() > 0 && c.len() > 0 && a[0] == b[0] && b[0] == c[0] {
        lemma_text_transitive(a.drop_first(), b.drop_first(), c.drop_first());
    }
}

/// Texts that come before each other are equal.
pub proof fn lemma_text_antisymmetric(a: Seq<char>, b: Seq<char>)
    requires
        text::text_le(a, b),
        text::text_le(b, a),
    ensures
        a == b,
    decreases a.len(),
{
    if a.len() > 0 && b.len() > 0 {
        let x = a.drop_first();
        let y = b.drop_first();
        assert(a[0] == b[0]);
        lemma_text_antisymmetric(x, y);
        assert(a.len() == b.len());
        assert forall|i: int| 0 <= i < a.len() implies a[i] == b[i] by {
            if i > 0 {
                assert(x[i - 1] == y[i - 1]);
            }
        }
    }
    assert(a =~= b);
}

/// The order of entries is total, transitive, and tells different entries apart.
pub proof fn law_entry_order(a: EntryView, b: EntryView, c: EntryView)
    ensures
        entry_le(a, b) || entry_le(b, a),
        entry_le(a, b) && entry_le(b, c) ==> entry_le(a, c),
        entry_le(a, b) && entry_le(b, a) ==> a == b,
{
    lemma_text_total(a.name, b.name);
    if entry_le(a, b) && entry_le(b, c) && a.is_dir == b.is_dir && b.is_dir == c.is_dir {
        lemma_text_transitive(a.name, b.name, c.name);
    }
    if entry_le(a, b) && entry_le(b, a) {
        lemma_text_antisymmetric(a.name, b.name);
    }
}

/// A listing in order is the only one with its entries.
pub proof fn law_order_is_unique(s: Seq<EntryView>, t: Seq<EntryView>)
    requires
        in_order(s),
        in_order(t),
        s.to_multiset() == t.to_multiset(),
    ensures
        s == t,
    decreases s.len(),
{
    broadcast use vstd::seq_lib::group_to_multiset_ensures;

    assert(s.to_multiset().len() == s.len());
    assert(t.to_multiset().len() == t.len());
    if s.len() == 0 {
        assert(s =~= t);
    } else {
        let a = s.last();
        let b = t.last();
        assert(t.to_multiset().contains(a)) by {
            assert(s.contains(a));
        }
        assert(s.to_multiset().contains(b)) by {
            assert(t.contains(b));
        }
        let i = t.index_of(a);
        let j = s.index_of(b);
        assert(entry_le(t[i], t[t.len() - 1]));
        assert(entry_le(s[j], s[s.len() - 1]));
        law_entry_order(a, b, a);
        assert(a == b);
        let s0 = s.drop_last();
        let t0 = t.drop_last();
        assert(s =~= s0.push(a));
        assert(t =~= t0.push(a));
        assert(s0.to_multiset() =~= s.to_multiset().remove(a));
        assert(t0.to_multiset() =~= t.to_multiset().remove(a));
        assert(in_order(s0)) by {
            assert forall|x: int, y: int| 0 <= x <= y < s0.len() implies entry_le(
                #[trigger] s0[x],
                #[trigger] s0[y],
            ) by {
                assert(entry_le(s[x], s[y]));
            }
        }
        assert(in_order(t0)) by {
            assert forall|x: int, y: int| 0 <= x <= y < t0.len() implies entry_le(
                #[trigger] t0[x],
                #[trigger] t0[y],
            ) by {
                assert(entry_le(t[x], t[y]));
            }
        }
        law_order_is_unique(s0, t0);
    }
}

/// A sorted listing holds the entries that it was given, each as often. Directories come
/// before files; of two directories or two files that agree up to some place, the one comes
/// first whose name ends there or has the smaller character there.
pub proof fn law_listing_is_sorted(
    entries: Vec<DirEntry>,
    out: Vec<DirEntry>,
    i: int,
    j: int,
    k: int,
)
    requires
        call_ensures(sort_entries, (entries,), out),
        0 <= i < j < out@.len(),
    ensures
        ipc::entry_views(out@).to_multiset() == ipc::entry_views(entries@).to_multiset(),
        out@[j].is_dir ==> out@[i].is_dir,
        out@[i].is_dir == out@[j].is_dir && 0 <= k < out@[i].name@.len() && k <= out@[j].name@.len()
            && out@[i].name@.take(k) == out@[j].name@.take(k) ==> k < out@[j].name@.len()
            && out@[i].name@[k] <= out@[j].name@[k],
{
    let s = ipc::entry_views(out@);
    assert(s[i] == out@[i]@ && s[j] == out@[j]@);
    assert(entry_le(s[i], s[j]));
    let (a, b) = (s[i].name, s[j].name);
    if s[i].is_dir == s[j].is_dir && 0 <= k < a.len() && k <= b.len() && a.take(k) == b.take(k) {
        text::law_first_difference_decides(a, b, k);
    }
}

fn not_after(a: &DirEntry, b: &DirEntry) -> (r: bool)
    ensures
        r == entry_le(a@, b@),
{
    if a.is_dir != b.is_dir {
        a.is_dir
    } else {
        text_not_after(a.name.as_str(), b.name.as_str())
    }
}

/// Puts a listing in order.
pub fn sort_entries(entries: Vec<DirEntry>) -> (out: Vec<DirEntry>)
    ensures
        in_order(ipc::entry_views(out@)),
        ipc::entry_views(out@).to_multiset() == ipc::entry_views(entries@).to_multiset(),
{
    broadcast use vstd::seq_lib::group_to_multiset_ensures;

    let mut rest = entries;
    let mut out: Vec<DirEntry> = Vec::new();
    let ghost all = ipc::entry_views(entries@);
    assert(ipc::entry_views(out@) + all =~= all);
    while rest.len() > 0
        invariant
            in_order(ipc::entry_views(out@)),
            (ipc::entry_views(out@) + ipc::entry_views(rest@)).to_multiset() == all.to_multiset(),
        decreases rest.len(),
    {
        let ghost left = ipc::entry_views(rest@);
        let ghost done = ipc::entry_views(out@);
        let e = rest.remove(0);
        let mut k: usize = 0;
        while k < out.len() && not_after(&out[k], &e)
            invariant
                k <= out@.len(),
                done == ipc::entry_views(out@),
                forall|i: int| 0 <= i < k ==> entry_le(#[trigger] done[i], e@),
            decreases out.len() - k,
        {
            k = k + 1;
        }
        out.insert(k, e);
        proof {
            let now = ipc::entry_views(out@);
            assert(now =~= done.insert(k as int, e@));
            assert forall|i: int, j: int| 0 <= i <= j < now.len() implies entry_le(
                #[trigger] now[i],
                #[trigger] now[j],
            ) by {
                if k < done.len() {
                    law_entry_order(done[k as int], e@, e@);
                }
                law_entry_order(e@, e@, e@);
                if i == k && j > k {
                    assert(entry_le(done[k as int], done[j - 1]));
                    law_entry_order(e@, done[k as int], done[j - 1]);
                }
            }
            assert(ipc::entry_views(rest@) =~= left.drop_first());
            lemma_insert_multiset(done, k as int, left);
            assert(left[0] == e@);
        }
    }
    assert(ipc::entry_views(out@) + ipc::entry_views(rest@) =~= ipc::entry_views(out@));
    out
}

/// Moving the first entry of a list into another keeps what the two hold together.
proof fn lemma_insert_multiset(done: Seq<EntryView>, k: int, left: Seq<EntryView>)
    requires
        0 <= k <= done.len(),
        left.len() > 0,
    ensures
        (done.insert(k, left[0]) + left.drop_first()).to_multiset() == (done
            + left).to_multiset(),
{
    broadcast use vstd::seq_lib::group_to_multiset_ensures;

    vstd::seq_lib::lemma_multiset_commutative(done.insert(k, left[0]), left.drop_first());
    vstd::seq_lib::lemma_multiset_commutative(done, left);
    assert(left =~= seq![left[0]] + left.drop_first());
    vstd::seq_lib::lemma_multiset_commutative(seq![left[0]], left.drop_first());
    assert(seq![left[0]] =~= Seq::<EntryView>::empty().push(left[0]));
    assert((done.insert(k, left[0]) + left.drop_first()).to_multiset() =~= (done
        + left).to_multiset());
}

} // verus!
