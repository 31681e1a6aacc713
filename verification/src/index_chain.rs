//! The chained index: fixed-size pages exposed as one append-only list.
//!
//! One index record holds at most 128 live entries in a dense prefix of
//! its slots. When an identity's entries outgrow one record, a fresh
//! record is chained behind it through the `pointer` field, and the
//! overflowing entry lands in the fresh record — never by overwriting a
//! slot or growing past capacity. Walking the chain recovers every entry
//! in insertion order.

use vstd::prelude::*;

verus! {

use vstd::pervasive::VecAdditionalExecFns;
use crate::layout::{zero32, copy_bytes};
use crate::state::{AccountIndex, INDEX_SLOTS};

/// Live entries sit in a dense prefix: no occupied slot follows an
/// empty one.
pub open spec fn slots_dense(slots: Seq<Option<Seq<u8>>>) -> bool {
    forall|i: int, j: int|
        #![trigger slots[i], slots[j]]
        0 <= i <= j < slots.len() && slots[j] is Some ==> slots[i] is Some
}

/// Every slot is occupied.
pub open spec fn slots_full(slots: Seq<Option<Seq<u8>>>) -> bool {
    forall|i: int| 0 <= i < slots.len() ==> (#[trigger] slots[i]) is Some
}

/// The live entries of one page: the leading run of occupied slots.
pub open spec fn page_entries(slots: Seq<Option<Seq<u8>>>) -> Seq<Seq<u8>>
    decreases slots.len(),
{
    if slots.len() == 0 {
        Seq::empty()
    } else {
        match slots[0] {
            Some(a) => seq![a] + page_entries(slots.skip(1)),
            None => Seq::empty(),
        }
    }
}

/// Appending a value onto a fully occupied slot run appends its entry.
pub proof fn lemma_page_entries_push_some(s: Seq<Option<Seq<u8>>>, a: Seq<u8>)
    requires
        slots_full(s),
    ensures
        page_entries(s.push(Some(a))) == page_entries(s).push(a),
    decreases s.len(),
{
    if s.len() == 0 {
        let t = s.push(Some(a));
        assert(t[0] == Some(a));
        assert(t.skip(1) =~= Seq::<Option<Seq<u8>>>::empty());
        assert(page_entries(t.skip(1)) == Seq::<Seq<u8>>::empty());
        assert(page_entries(t) =~= seq![a]);
        assert(page_entries(s).push(a) =~= seq![a]);
    } else {
        assert(s.push(Some(a))[0] == s[0]);
        assert(s.push(Some(a)).skip(1) =~= s.skip(1).push(Some(a)));
        assert(slots_full(s.skip(1)));
        lemma_page_entries_push_some(s.skip(1), a);
        assert(page_entries(s.push(Some(a))) =~= page_entries(s).push(a));
    }
}

/// The entries of a slot sequence are the entries of its dense prefix.
pub proof fn lemma_page_entries_cut(s: Seq<Option<Seq<u8>>>, k: int)
    requires
        0 <= k <= s.len(),
        forall|i: int| 0 <= i < k ==> (#[trigger] s[i]) is Some,
        k == s.len() || s[k] is None,
    ensures
        page_entries(s) == page_entries(s.take(k)),
        page_entries(s.take(k)).len() == k,
        forall|i: int| 0 <= i < k ==> page_entries(s.take(k))[i] == (#[trigger] s[i])->Some_0,
    decreases s.len(),
{
    if k == 0 {
        assert(page_entries(s.take(0)) =~= Seq::<Seq<u8>>::empty());
        if s.len() > 0 {
            assert(s[0] is None);
        }
    } else {
        assert(s[0] is Some);
        lemma_page_entries_cut(s.skip(1), k - 1);
        assert(s.take(k).skip(1) =~= s.skip(1).take(k - 1));
        assert(page_entries(s) =~= seq![s[0]->Some_0] + page_entries(s.skip(1)));
        assert(page_entries(s.take(k)) =~= seq![s[0]->Some_0] + page_entries(s.take(k).skip(1)));
        assert forall|i: int| 0 <= i < k implies page_entries(s.take(k))[i] == (
        #[trigger] s[i])->Some_0 by {
            if i > 0 {
                assert(page_entries(s.skip(1).take(k - 1))[i - 1] == s.skip(1)[i - 1]->Some_0);
            }
        }
    }
}

/// Writing an entry into the first empty slot appends it to the page's
/// live entries and keeps the prefix dense.
pub proof fn lemma_page_entries_append(s: Seq<Option<Seq<u8>>>, j: int, e: Seq<u8>)
    requires
        0 <= j < s.len(),
        s[j] is None,
        forall|i: int| 0 <= i < j ==> (#[trigger] s[i]) is Some,
        slots_dense(s),
    ensures
        page_entries(s).len() == j,
        page_entries(s.update(j, Some(e))) == page_entries(s).push(e),
        slots_dense(s.update(j, Some(e))),
    decreases s.len(),
{
    let t = s.update(j, Some(e));
    assert forall|i: int| j < i < s.len() implies s[i] is None by {
        if s[i] is Some {
            assert(s[j] is Some);
        }
    }
    lemma_page_entries_cut(s, j);
    assert forall|i: int| 0 <= i < j + 1 implies (#[trigger] t[i]) is Some by {}
    assert(j + 1 == t.len() || t[j + 1] is None);
    lemma_page_entries_cut(t, j + 1);
    assert(t.take(j + 1) =~= s.take(j).push(Some(e)));
    assert(slots_full(s.take(j)));
    lemma_page_entries_push_some(s.take(j), e);
    assert(page_entries(s.take(j)) == page_entries(s));
    assert(page_entries(t) == page_entries(s).push(e));
    assert forall|a: int, b: int|
        #![trigger t[a], t[b]]
        0 <= a <= b < t.len() && t[b] is Some implies t[a] is Some by {
        if b > j {
            assert(s[b] is Some);
        }
    }
}

/// One loaded page of a chain: the record and the address it lives at.
pub struct IndexPage {
    pub address: Vec<u8>,
    pub record: AccountIndex,
}

/// A pointer-linked list of index records, loaded in chain order and
/// exposed as one logical append-only list of addresses.
pub struct IndexChain {
    pub pages: Vec<IndexPage>,
}

/// The entries of a page sequence, in chain order.
pub open spec fn chain_entries(ps: Seq<IndexPage>) -> Seq<Seq<u8>>
    decreases ps.len(),
{
    if ps.len() == 0 {
        Seq::empty()
    } else {
        chain_entries(ps.drop_last()) + page_entries(ps.last().record@.slots)
    }
}

/// A page a chain may hold: a real address, an initialized record that
/// the layout can represent, and a dense slot prefix.
pub open spec fn page_wf(p: IndexPage) -> bool {
    &&& p.address@.len() == 32
    &&& p.address@ != zero32()
    &&& p.record@.wf()
    &&& p.record@.initialized
    &&& slots_dense(p.record@.slots)
}

/// A well-formed page sequence: at least one page; every page
/// well-formed; every page but the last full; each page's pointer naming
/// the next page's address; and no pointer out of the last page.
pub open spec fn chain_wf(ps: Seq<IndexPage>) -> bool {
    &&& ps.len() >= 1
    &&& forall|i: int| 0 <= i < ps.len() ==> page_wf(#[trigger] ps[i])
    &&& forall|i: int| 0 <= i < ps.len() - 1 ==> slots_full((#[trigger] ps[i]).record@.slots)
    &&& forall|i: int|
        0 <= i < ps.len() - 1 ==> (#[trigger] ps[i]).record@.pointer == Some(ps[i + 1].address@)
    &&& ps.last().record@.pointer is None
}

/// Replacing the last page by a copy whose first free slot took a new
/// entry keeps the chain well-formed and appends that entry.
proof fn lemma_chain_set_last(ps: Seq<IndexPage>, q: IndexPage, j: int, e: Seq<u8>)
    requires
        chain_wf(ps),
        0 <= j < ps.last().record@.slots.len(),
        ps.last().record@.slots[j] is None,
        forall|i: int| 0 <= i < j ==> (#[trigger] ps.last().record@.slots[i]) is Some,
        e.len() == 32,
        e != zero32(),
        q.address@ == ps.last().address@,
        q.record@.initialized == ps.last().record@.initialized,
        q.record@.pointer == ps.last().record@.pointer,
        q.record@.slots == ps.last().record@.slots.update(j, Some(e)),
    ensures
        chain_wf(ps.drop_last().push(q)),
        chain_entries(ps.drop_last().push(q)) == chain_entries(ps).push(e),
{
    let ps1 = ps.drop_last().push(q);
    let s0 = ps.last().record@.slots;
    assert(page_wf(ps.last()));
    lemma_page_entries_append(s0, j, e);
    assert(ps1.drop_last() =~= ps.drop_last());
    assert(ps1.last() == q);
    assert(chain_entries(ps1) =~= chain_entries(ps).push(e));
    assert(page_wf(q)) by {
        assert forall|i: int| 0 <= i < q.record@.slots.len() implies crate::layout::wf_opt32(
            #[trigger] q.record@.slots[i],
        ) by {
            if i != j {
                assert(q.record@.slots[i] == s0[i]);
            }
        }
    }
    assert forall|i: int| 0 <= i < ps1.len() implies page_wf(#[trigger] ps1[i]) by {
        if i < ps.len() - 1 {
            assert(ps1[i] == ps[i]);
        }
    }
    assert forall|i: int| 0 <= i < ps1.len() - 1 implies slots_full(
        (#[trigger] ps1[i]).record@.slots,
    ) by {
        assert(ps1[i] == ps[i]);
    }
    assert forall|i: int| 0 <= i < ps1.len() - 1 implies (#[trigger] ps1[i]).record@.pointer
        == Some(ps1[i + 1].address@) by {
        assert(ps1[i] == ps[i]);
        if i < ps.len() - 2 {
            assert(ps1[i + 1] == ps[i + 1]);
        }
    }
}

/// Chaining a fresh page that took the new entry behind a full last
/// page keeps the chain well-formed and appends that entry.
proof fn lemma_chain_grow(ps: Seq<IndexPage>, q1: IndexPage, q2: IndexPage, e: Seq<u8>)
    requires
        chain_wf(ps),
        slots_full(ps.last().record@.slots),
        e.len() == 32,
        e != zero32(),
        q1.address@ == ps.last().address@,
        q1.record@.initialized == ps.last().record@.initialized,
        q1.record@.pointer == Some(q2.address@),
        q1.record@.slots == ps.last().record@.slots,
        q2.address@.len() == 32,
        q2.address@ != zero32(),
        q2.record@.initialized,
        q2.record@.pointer is None,
        q2.record@.slots.len() == INDEX_SLOTS,
        q2.record@.slots[0] == Some(e),
        forall|i: int| 1 <= i < q2.record@.slots.len() ==> (#[trigger] q2.record@.slots[i]) is None,
    ensures
        chain_wf(ps.drop_last().push(q1).push(q2)),
        chain_entries(ps.drop_last().push(q1).push(q2)) == chain_entries(ps).push(e),
{
    let ps2 = ps.drop_last().push(q1).push(q2);
    assert(page_wf(ps.last()));
    assert(page_entries(q2.record@.slots) =~= seq![e]) by {
        let t = q2.record@.slots;
        assert(t[0] == Some(e));
        assert(t.skip(1)[0] is None);
        assert(page_entries(t.skip(1)) == Seq::<Seq<u8>>::empty());
    }
    assert(ps2.drop_last().drop_last() =~= ps.drop_last());
    assert(ps2.drop_last().last() == q1);
    assert(page_entries(q1.record@.slots) == page_entries(ps.last().record@.slots));
    assert(chain_entries(ps2.drop_last()) == chain_entries(ps.drop_last()) + page_entries(
        ps.last().record@.slots,
    ));
    assert(chain_entries(ps2) =~= chain_entries(ps).push(e));
    assert(page_wf(q1));
    assert(page_wf(q2)) by {
        assert forall|i: int| 0 <= i < q2.record@.slots.len() implies crate::layout::wf_opt32(
            #[trigger] q2.record@.slots[i],
        ) by {}
        assert forall|a: int, b: int|
            #![trigger q2.record@.slots[a], q2.record@.slots[b]]
            0 <= a <= b < q2.record@.slots.len() && q2.record@.slots[b] is Some implies q2.record@.slots[a] is Some by {
            if b >= 1 {
                assert(q2.record@.slots[b] is None);
            }
        }
    }
    assert forall|i: int| 0 <= i < ps2.len() implies page_wf(#[trigger] ps2[i]) by {
        if i < ps.len() - 1 {
            assert(ps2[i] == ps[i]);
        }
    }
    assert forall|i: int| 0 <= i < ps2.len() - 1 implies slots_full(
        (#[trigger] ps2[i]).record@.slots,
    ) by {
        if i < ps.len() - 1 {
            assert(ps2[i] == ps[i]);
        } else {
            assert(ps2[i] == q1);
        }
    }
    assert forall|i: int| 0 <= i < ps2.len() - 1 implies (#[trigger] ps2[i]).record@.pointer
        == Some(ps2[i + 1].address@) by {
        if i < ps.len() - 2 {
            assert(ps2[i] == ps[i]);
            assert(ps2[i + 1] == ps[i + 1]);
        } else if i == ps.len() - 2 {
            assert(ps2[i] == ps[i]);
            assert(ps2[i + 1] == q1);
        } else {
            assert(ps2[i] == q1);
            assert(ps2[i + 1] == q2);
        }
    }
}

impl IndexChain {
    /// All entries of the chain, in insertion order.
    pub open spec fn entries(&self) -> Seq<Seq<u8>> {
        chain_entries(self.pages@)
    }

    /// A well-formed chain: at least one page; every page well-formed;
    /// every page but the last full; each page's pointer naming the next
    /// page's address; and no pointer out of the last page.
    pub open spec fn wf(&self) -> bool {
        chain_wf(self.pages@)
    }

    /// A chain of one empty index record at the given address.
    #[verifier::rlimit(50)]
    pub fn singleton(address: &Vec<u8>) -> (r: IndexChain)
        requires
            address@.len() == 32,
            address@ != zero32(),
        ensures
            r.wf(),
            r.entries() == Seq::<Seq<u8>>::empty(),
            r.pages@.len() == 1,
            r.pages@[0].address@ == address@,
    {
        let record = fresh_index();
        let page = IndexPage { address: copy_bytes(address), record };
        let mut pages: Vec<IndexPage> = Vec::new();
        pages.push(page);
        let r = IndexChain { pages };
        proof {
            let ps = r.pages@;
            assert(ps.drop_last() =~= Seq::<IndexPage>::empty());
            assert(chain_entries(Seq::<IndexPage>::empty()) == Seq::<Seq<u8>>::empty());
            assert(ps.last() == page);
            assert(chain_entries(ps) =~= Seq::<Seq<u8>>::empty());
        }
        r
    }

    /// Appends an entry to the logical list. The entry lands in the
    /// first free slot of the last page; when that page is already
    /// full, a fresh page is chained at `fresh_address` and takes the
    /// entry instead, and the call reports that the chain grew.
    #[verifier::rlimit(100)]
    pub fn append(&mut self, entry: &Vec<u8>, fresh_address: &Vec<u8>) -> (grew: bool)
        requires
            old(self).wf(),
            entry@.len() == 32,
            entry@ != zero32(),
            fresh_address@.len() == 32,
            fresh_address@ != zero32(),
        ensures
            final(self).wf(),
            final(self).entries() == old(self).entries().push(entry@),
            grew == slots_full(old(self).pages@.last().record@.slots),
            grew ==> final(self).pages@.len() == old(self).pages@.len() + 1,
            grew ==> final(self).pages@[old(self).pages@.len() - 1].record@.pointer == Some(
                fresh_address@,
            ),
            grew ==> final(self).pages@.last().address@ == fresh_address@,
            !grew ==> final(self).pages@.len() == old(self).pages@.len(),
    {
        let ghost ps0 = self.pages@;
        let mut page = self.pages.pop().unwrap();
        let ghost slots0 = page.record@.slots;
        proof {
            assert(self.pages@ =~= ps0.drop_last());
        }
        match find_free_slot(&page.record) {
            Some(j) => {
                set_slot(&mut page.record, j, entry);
                proof {
                    lemma_chain_set_last(ps0, page, j as int, entry@);
                    assert(!slots_full(slots0));
                }
                self.pages.push(page);
                proof {
                    assert(self.pages@ =~= ps0.drop_last().push(page));
                }
                false
            },
            None => {
                set_pointer(&mut page.record, fresh_address);
                let mut record = fresh_index();
                set_slot(&mut record, 0, entry);
                let fresh_page = IndexPage { address: copy_bytes(fresh_address), record };
                proof {
                    assert(fresh_page.record@.slots[0] == Some(entry@));
                    assert forall|i: int|
                        1 <= i < fresh_page.record@.slots.len() implies (
                    #[trigger] fresh_page.record@.slots[i]) is None by {}
                    lemma_chain_grow(ps0, page, fresh_page, entry@);
                }
                self.pages.push(page);
                self.pages.push(fresh_page);
                proof {
                    assert(self.pages@ =~= ps0.drop_last().push(page).push(fresh_page));
                }
                true
            },
        }
    }

    /// Walks the chain and returns every entry, in insertion order.
    pub fn all_entries(&self) -> (r: Vec<Vec<u8>>)
        ensures
            r.deep_view() == self.entries(),
    {
        let mut out: Vec<Vec<u8>> = Vec::new();
        let n = self.pages.len();
        let mut p: usize = 0;
        while p < n
            invariant
                p <= n,
                n == self.pages@.len(),
                out.deep_view() == chain_entries(self.pages@.take(p as int)),
            decreases n - p,
        {
            let ghost before = out.deep_view();
            let mut live = page_live_entries(&self.pages[p].record);
            out.append(&mut live);
            proof {
                assert(out.deep_view() =~~= before + page_entries(
                    self.pages@[p as int].record@.slots,
                ));
                assert(self.pages@.take(p + 1).drop_last() =~= self.pages@.take(p as int));
                assert(self.pages@.take(p + 1).last() == self.pages@[p as int]);
            }
            p += 1;
        }
        proof {
            assert(self.pages@.take(n as int) =~= self.pages@);
        }
        out
    }
}

/// A fresh, empty, initialized index record: no chain pointer, no
/// occupied slot.
pub fn fresh_index() -> (r: AccountIndex)
    ensures
        r@.wf(),
        r@.initialized,
        r@.pointer is None,
        r@.slots.len() == INDEX_SLOTS,
        forall|i: int| 0 <= i < r@.slots.len() ==> (#[trigger] r@.slots[i]) is None,
        slots_dense(r@.slots),
        page_entries(r@.slots) == Seq::<Seq<u8>>::empty(),
{
    let mut datasets: Vec<Option<Vec<u8>>> = Vec::new();
    let mut i: usize = 0;
    while i < INDEX_SLOTS
        invariant
            i <= INDEX_SLOTS,
            datasets@.len() == i,
            forall|j: int| 0 <= j < i ==> (#[trigger] datasets@[j]) is None,
        decreases INDEX_SLOTS - i,
    {
        datasets.push(None);
        i += 1;
    }
    let r = AccountIndex { is_initialized: true, pointer: None, datasets };
    proof {
        assert(r@.slots.len() == INDEX_SLOTS);
        assert(forall|j: int| 0 <= j < r@.slots.len() ==> (#[trigger] r@.slots[j]) is None);
    }
    r
}

/// The first free slot of an index record, if one remains.
pub fn find_free_slot(idx: &AccountIndex) -> (r: Option<usize>)
    ensures
        match r {
            Some(j) => j < idx@.slots.len() && idx@.slots[j as int] is None && forall|i: int|
                0 <= i < j ==> (#[trigger] idx@.slots[i]) is Some,
            None => slots_full(idx@.slots),
        },
{
    let n = idx.datasets.len();
    let mut i: usize = 0;
    while i < n
        invariant
            i <= n,
            n == idx.datasets@.len(),
            idx@.slots.len() == n,
            forall|j: int| 0 <= j < i ==> (#[trigger] idx@.slots[j]) is Some,
        decreases n - i,
    {
        if idx.datasets[i].is_none() {
            return Some(i);
        }
        i += 1;
    }
    None
}

/// Writes an entry into slot `j`, leaving the flag and pointer as they
/// were.
pub fn set_slot(idx: &mut AccountIndex, j: usize, entry: &Vec<u8>)
    requires
        j < old(idx)@.slots.len(),
    ensures
        final(idx)@.slots == old(idx)@.slots.update(j as int, Some(entry@)),
        final(idx)@.pointer == old(idx)@.pointer,
        final(idx)@.initialized == old(idx)@.initialized,
{
    let ghost before = idx@.slots;
    idx.datasets.set(j, Some(copy_bytes(entry)));
    proof {
        assert(idx@.slots =~= before.update(j as int, Some(entry@)));
    }
}

/// Points an index record at a chained continuation record.
pub fn set_pointer(idx: &mut AccountIndex, address: &Vec<u8>)
    ensures
        final(idx)@.pointer == Some(address@),
        final(idx)@.slots == old(idx)@.slots,
        final(idx)@.initialized == old(idx)@.initialized,
{
    idx.pointer = Some(copy_bytes(address));
}

/// The live entries of one index record, in slot order.
pub fn page_live_entries(idx: &AccountIndex) -> (r: Vec<Vec<u8>>)
    ensures
        r.deep_view() == page_entries(idx@.slots),
{
    let mut out: Vec<Vec<u8>> = Vec::new();
    let n = idx.datasets.len();
    let mut i: usize = 0;
    while i < n
        invariant
            i <= n,
            n == idx.datasets@.len(),
            idx@.slots.len() == n,
            forall|j: int| 0 <= j < i ==> (#[trigger] idx@.slots[j]) is Some,
            out.deep_view() == page_entries(idx@.slots.take(i as int)),
            out.deep_view().len() == i,
        decreases n - i,
    {
        let ghost before = out.deep_view();
        match &idx.datasets[i] {
            Some(a) => {
                out.push(copy_bytes(a));
                proof {
                    assert(idx@.slots[i as int] is Some);
                    assert(slots_full(idx@.slots.take(i as int)));
                    lemma_page_entries_push_some(idx@.slots.take(i as int), a@);
                    assert(idx@.slots.take(i + 1) =~= idx@.slots.take(i as int).push(
                        idx@.slots[i as int],
                    ));
                    assert(idx@.slots[i as int] == Some(a@));
                    assert(out.deep_view() =~~= before.push(a@));
                }
            },
            None => {
                proof {
                    assert(idx@.slots[i as int] is None);
                    lemma_page_entries_cut(idx@.slots, i as int);
                    assert(out.deep_view() == page_entries(idx@.slots));
                }
                return out;
            },
        }
        i += 1;
    }
    proof {
        assert(idx@.slots.take(n as int) =~= idx@.slots);
    }
    out
}

} // verus!
