//! A task's address space: the list of mapped virtual-page areas.
//!
//! Each area covers a contiguous virtual-page range with uniform permission
//! bits and its own backing frames. `mmap` installs one single-page framed
//! area per page of the requested byte range; `munmap` removes every area
//! whose starting page lies inside the range. Both keep the overlap and
//! coverage tests of the scheduler's syscall layer: the tests compare only
//! against each existing area's *starting* page, not its full range.

use vstd::prelude::*;
use crate::PAGE_SIZE;

verus! {

/// Readable mapping permission bit.
pub const MAP_PERM_R: u8 = 2;

/// Writable mapping permission bit.
pub const MAP_PERM_W: u8 = 4;

/// Executable mapping permission bit.
pub const MAP_PERM_X: u8 = 8;

/// User-accessible mapping permission bit; set on every `mmap` area.
pub const MAP_PERM_U: u8 = 16;

/// One mapped range: virtual pages `start_vpn..end_vpn` with permission
/// bits `perm` and its own backing frames.
#[derive(Clone, Copy, PartialEq, Eq, Structural, Debug)]
pub struct Area {
    /// First virtual page number of the range.
    pub start_vpn: usize,
    /// One past the last virtual page number of the range.
    pub end_vpn: usize,
    /// Permission bits of every page in the range.
    pub perm: u8,
}

/// A task's address space: its ordered list of mapped areas.
pub struct MemorySet {
    /// The mapped ranges, in insertion order.
    pub areas: Vec<Area>,
}

/// The page containing byte address `a`.
pub open spec fn floor_vpn(a: int) -> int {
    a / PAGE_SIZE as int
}

/// The first page boundary at or above byte address `a`.
pub open spec fn ceil_vpn(a: int) -> int {
    a / PAGE_SIZE as int + if a % PAGE_SIZE as int != 0 {
        1int
    } else {
        0int
    }
}

/// First page of the byte range starting at `start`.
pub open spec fn start_vpn_of(start: usize) -> int {
    floor_vpn(start as int)
}

/// One past the last page of the byte range `[start, start + len)`.
pub open spec fn end_vpn_of(start: usize, len: usize) -> int {
    ceil_vpn(start as int + len as int)
}

/// Whether `a`'s starting page lies inside the page range `[l, r)`.
pub open spec fn starts_in(a: Area, l: int, r: int) -> bool {
    l <= a.start_vpn as int && (a.start_vpn as int) < r
}

/// Whether some existing area's starting page lies inside `[l, r)`.
pub open spec fn overlaps_start(areas: Seq<Area>, l: int, r: int) -> bool {
    exists|i: int| 0 <= i < areas.len() && starts_in(#[trigger] areas[i], l, r)
}

/// How many areas have their starting page inside `[l, r)`.
pub open spec fn count_starts_in(areas: Seq<Area>, l: int, r: int) -> int
    decreases areas.len(),
{
    if areas.len() == 0 {
        0
    } else {
        count_starts_in(areas.drop_last(), l, r) + if starts_in(areas.last(), l, r) {
            1int
        } else {
            0int
        }
    }
}

/// The area list with every area starting inside `[l, r)` removed,
/// the order of the rest kept.
pub open spec fn remove_starts_in(areas: Seq<Area>, l: int, r: int) -> Seq<Area>
    decreases areas.len(),
{
    if areas.len() == 0 {
        areas
    } else {
        let rest = remove_starts_in(areas.drop_last(), l, r);
        if starts_in(areas.last(), l, r) {
            rest
        } else {
            rest.push(areas.last())
        }
    }
}

/// The single-page areas `mmap` installs for the page range `[l, r)`.
pub open spec fn page_areas(l: int, r: int, perm: u8) -> Seq<Area> {
    Seq::new(
        if r >= l {
            (r - l) as nat
        } else {
            0nat
        },
        |i: int| (Area { start_vpn: (l + i) as usize, end_vpn: (l + i + 1) as usize, perm }),
    )
}

/// Permission byte of an `mmap` request: the protection bits shifted onto
/// the Read/Write/Execute flags, with the User flag always set.
pub open spec fn mmap_perm(prot: usize) -> u8 {
    ((prot as u8) << 1) | MAP_PERM_U
}

/// Whether an `mmap` request with a nonzero length has acceptable
/// arguments: some permission requested, no bits above the low three, and
/// a page-aligned start.
pub open spec fn mmap_args_ok(start: usize, prot: usize) -> bool {
    prot < 8 && prot % 8 != 0 && start as int % PAGE_SIZE as int == 0
}

/// The status `mmap` returns: 0 for success, -1 for a rejected request.
pub open spec fn mmap_ret(areas: Seq<Area>, start: usize, len: usize, prot: usize) -> isize {
    if len == 0 {
        0
    } else if !mmap_args_ok(start, prot) {
        -1isize
    } else if overlaps_start(areas, start_vpn_of(start), end_vpn_of(start, len)) {
        -1isize
    } else {
        0
    }
}

/// The area list after `mmap`: unchanged unless the request is accepted
/// with a nonzero length, in which case one framed single-page area per
/// page of the range is appended.
pub open spec fn mmap_areas(areas: Seq<Area>, start: usize, len: usize, prot: usize) -> Seq<
    Area,
> {
    if len != 0 && mmap_ret(areas, start, len, prot) == 0 {
        areas + page_areas(start_vpn_of(start), end_vpn_of(start, len), mmap_perm(prot))
    } else {
        areas
    }
}

/// The status `munmap` returns: 0 for success, -1 when the start is not
/// page-aligned or fewer areas start inside the range than it has pages.
pub open spec fn munmap_ret(areas: Seq<Area>, start: usize, len: usize) -> isize {
    if len == 0 {
        0
    } else if start as int % PAGE_SIZE as int != 0 {
        -1isize
    } else if count_starts_in(areas, start_vpn_of(start), end_vpn_of(start, len)) < end_vpn_of(
        start,
        len,
    ) - start_vpn_of(start) {
        -1isize
    } else {
        0
    }
}

/// The area list after `munmap`: unchanged on a no-op or a rejection,
/// otherwise with every area starting inside the range removed.
pub open spec fn munmap_areas(areas: Seq<Area>, start: usize, len: usize) -> Seq<Area> {
    if len != 0 && munmap_ret(areas, start, len) == 0 {
        remove_starts_in(areas, start_vpn_of(start), end_vpn_of(start, len))
    } else {
        areas
    }
}

impl MemorySet {
    /// An address space with nothing mapped.
    pub fn new() -> (m: Self)
        ensures
            m.areas@ == Seq::<Area>::empty(),
    {
        MemorySet { areas: Vec::new() }
    }

    /// A structural copy of this address space, as `fork` gives the child.
    pub fn duplicate(&self) -> (m: Self)
        ensures
            m.areas@ == self.areas@,
    {
        MemorySet { areas: crate::copy_vec(&self.areas) }
    }

    /// Appends one framed area covering the byte range `[start_va, end_va)`.
    pub fn insert_framed_area(&mut self, start_va: usize, end_va: usize, perm: u8)
        ensures
            final(self).areas@ == old(self).areas@.push(
                (Area {
                    start_vpn: floor_vpn(start_va as int) as usize,
                    end_vpn: ceil_vpn(end_va as int) as usize,
                    perm,
                }),
            ),
    {
        let start_vpn = start_va / PAGE_SIZE;
        let end_vpn = end_va / PAGE_SIZE + if end_va % PAGE_SIZE != 0 {
            1
        } else {
            0
        };
        self.areas.push(Area { start_vpn, end_vpn, perm });
    }

    /// Unmaps everything and releases the backing frames, as a task's exit
    /// path does.
    pub fn recycle_data_pages(&mut self)
        ensures
            final(self).areas@ == Seq::<Area>::empty(),
    {
        self.areas.clear();
    }

    /// Maps the byte range `[start, start + len)` with protection `prot`.
    ///
    /// A zero length is a no-op success. The request is rejected when no
    /// permission bit is set, a bit above the low three is set, the start
    /// is not page-aligned, or an existing area's starting page lies inside
    /// the requested page range. On success one single-page framed area is
    /// appended per page, carrying the shifted protection bits plus the
    /// User flag.
    pub fn mmap(&mut self, start: usize, len: usize, prot: usize) -> (r: isize)
        requires
            start + len <= usize::MAX,
        ensures
            r == mmap_ret(old(self).areas@, start, len, prot),
            final(self).areas@ == mmap_areas(old(self).areas@, start, len, prot),
            len == 0 ==> r == 0 && final(self).areas@ == old(self).areas@,
            len != 0 && (prot == 0 || prot >= 8) ==> r == -1 && final(self).areas@ == old(
                self,
            ).areas@,
            len != 0 && start % 4096 != 0 ==> r == -1 && final(self).areas@ == old(self).areas@,
    {
        if len == 0 {
            return 0;
        }
        if prot >= 8 || prot % 8 == 0 || start % PAGE_SIZE != 0 {
            return -1;
        }
        let lvpn = start / PAGE_SIZE;
        let end = start + len;
        let rvpn = end / PAGE_SIZE + if end % PAGE_SIZE != 0 {
            1
        } else {
            0
        };
        let ghost areas0 = self.areas@;
        let mut i: usize = 0;
        while i < self.areas.len()
            invariant
                self.areas@ == areas0,
                i <= areas0.len(),
                len != 0,
                mmap_args_ok(start, prot),
                lvpn as int == start_vpn_of(start),
                rvpn as int == end_vpn_of(start, len),
                forall|j: int| 0 <= j < i ==> !starts_in(#[trigger] areas0[j], lvpn as int, rvpn as int),
            decreases areas0.len() - i,
        {
            let a = self.areas[i];
            if lvpn <= a.start_vpn && a.start_vpn < rvpn {
                proof {
                    assert(starts_in(areas0[i as int], lvpn as int, rvpn as int));
                }
                return -1;
            }
            i = i + 1;
        }
        let perm: u8 = ((prot as u8) << 1) | MAP_PERM_U;
        assert(perm == mmap_perm(prot));
        let mut vpn = lvpn;
        while vpn < rvpn
            invariant
                lvpn <= vpn <= rvpn,
                start % PAGE_SIZE == 0,
                start + len <= usize::MAX,
                end == start + len,
                len > 0,
                mmap_args_ok(start, prot),
                perm == mmap_perm(prot),
                !overlaps_start(areas0, lvpn as int, rvpn as int),
                lvpn as int == start_vpn_of(start),
                rvpn as int == end_vpn_of(start, len),
                self.areas@ == areas0 + page_areas(lvpn as int, vpn as int, perm),
            decreases rvpn - vpn,
        {
            assert(vpn * PAGE_SIZE < end) by {
                assert(vpn as int <= end as int / PAGE_SIZE as int);
            };
            let base = vpn * PAGE_SIZE;
            let endr = if end - base > PAGE_SIZE {
                base + PAGE_SIZE
            } else {
                end
            };
            self.insert_framed_area(base, endr, perm);
            proof {
                assert(floor_vpn(base as int) == vpn as int);
                assert(ceil_vpn(endr as int) == vpn as int + 1);
                assert(self.areas@ =~= areas0 + page_areas(lvpn as int, vpn as int + 1, perm));
            }
            vpn = vpn + 1;
        }
        proof {
            assert(self.areas@ =~= mmap_areas(areas0, start, len, prot));
        }
        0
    }

    /// Unmaps the byte range `[start, start + len)`.
    ///
    /// A zero length is a no-op success. The request is rejected when the
    /// start is not page-aligned, or when fewer areas have their starting
    /// page inside the page range than the range has pages. On success
    /// every area whose starting page lies in the range is unmapped,
    /// its frames released, and the area dropped from the list.
    pub fn munmap(&mut self, start: usize, len: usize) -> (r: isize)
        requires
            start + len <= usize::MAX,
        ensures
            r == munmap_ret(old(self).areas@, start, len),
            final(self).areas@ == munmap_areas(old(self).areas@, start, len),
            len == 0 ==> r == 0 && final(self).areas@ == old(self).areas@,
            len != 0 && start % 4096 != 0 ==> r == -1 && final(self).areas@ == old(self).areas@,
    {
        if len == 0 {
            return 0;
        }
        if start % PAGE_SIZE != 0 {
            return -1;
        }
        let lvpn = start / PAGE_SIZE;
        let end = start + len;
        let rvpn = end / PAGE_SIZE + if end % PAGE_SIZE != 0 {
            1
        } else {
            0
        };
        let ghost areas0 = self.areas@;
        let mut cnt: usize = 0;
        let mut i: usize = 0;
        while i < self.areas.len()
            invariant
                self.areas@ == areas0,
                i <= areas0.len(),
                cnt <= i,
                lvpn as int == start_vpn_of(start),
                rvpn as int == end_vpn_of(start, len),
                cnt as int == count_starts_in(areas0.take(i as int), lvpn as int, rvpn as int),
            decreases areas0.len() - i,
        {
            let a = self.areas[i];
            proof {
                assert(areas0.take(i as int + 1).drop_last() =~= areas0.take(i as int));
                assert(areas0.take(i as int + 1).last() == areas0[i as int]);
            }
            if lvpn <= a.start_vpn && a.start_vpn < rvpn {
                cnt = cnt + 1;
            }
            i = i + 1;
        }
        proof {
            assert(areas0.take(areas0.len() as int) =~= areas0);
        }
        assert(rvpn >= lvpn);
        if cnt < rvpn - lvpn {
            return -1;
        }
        let mut kept: Vec<Area> = Vec::new();
        let mut j: usize = 0;
        while j < self.areas.len()
            invariant
                self.areas@ == areas0,
                j <= areas0.len(),
                lvpn as int == start_vpn_of(start),
                rvpn as int == end_vpn_of(start, len),
                kept@ == remove_starts_in(areas0.take(j as int), lvpn as int, rvpn as int),
            decreases areas0.len() - j,
        {
            let a = self.areas[j];
            proof {
                assert(areas0.take(j as int + 1).drop_last() =~= areas0.take(j as int));
                assert(areas0.take(j as int + 1).last() == areas0[j as int]);
            }
            if !(lvpn <= a.start_vpn && a.start_vpn < rvpn) {
                kept.push(a);
            }
            j = j + 1;
        }
        proof {
            assert(areas0.take(areas0.len() as int) =~= areas0);
        }
        self.areas = kept;
        0
    }
}

/// Counting areas never yields a negative number.
proof fn lemma_count_nonneg(areas: Seq<Area>, l: int, r: int)
    ensures
        count_starts_in(areas, l, r) >= 0,
    decreases areas.len(),
{
    if areas.len() > 0 {
        lemma_count_nonneg(areas.drop_last(), l, r);
    }
}

/// The count of starting pages in a range distributes over concatenation.
proof fn lemma_count_concat(a: Seq<Area>, b: Seq<Area>, l: int, r: int)
    ensures
        count_starts_in(a + b, l, r) == count_starts_in(a, l, r) + count_starts_in(b, l, r),
    decreases b.len(),
{
    if b.len() == 0 {
        assert(a + b =~= a);
    } else {
        lemma_count_concat(a, b.drop_last(), l, r);
        assert((a + b).drop_last() =~= a + b.drop_last());
        assert((a + b).last() == b.last());
    }
}

/// Removal of areas starting in a range distributes over concatenation.
proof fn lemma_remove_concat(a: Seq<Area>, b: Seq<Area>, l: int, r: int)
    ensures
        remove_starts_in(a + b, l, r) == remove_starts_in(a, l, r) + remove_starts_in(b, l, r),
    decreases b.len(),
{
    if b.len() == 0 {
        assert(a + b =~= a);
        assert(remove_starts_in(a, l, r) + remove_starts_in(b, l, r) =~= remove_starts_in(
            a,
            l,
            r,
        ));
    } else {
        lemma_remove_concat(a, b.drop_last(), l, r);
        assert((a + b).drop_last() =~= a + b.drop_last());
        assert((a + b).last() == b.last());
        if !starts_in(b.last(), l, r) {
            assert(remove_starts_in(a, l, r) + remove_starts_in(b.drop_last(), l, r).push(
                b.last(),
            ) =~= (remove_starts_in(a, l, r) + remove_starts_in(b.drop_last(), l, r)).push(
                b.last(),
            ));
        }
    }
}

/// The pages `mmap` appends for `[l, m)` all start inside `[l, r)` when
/// `m` stays at or below `r`, so counting them gives their number, and
/// removing them gives nothing.
proof fn lemma_page_areas_in_range(l: int, m: int, r: int, perm: u8)
    requires
        0 <= l <= m <= r,
        r <= usize::MAX,
    ensures
        count_starts_in(page_areas(l, m, perm), l, r) == m - l,
        remove_starts_in(page_areas(l, m, perm), l, r) == Seq::<Area>::empty(),
    decreases m - l,
{
    if m == l {
        assert(page_areas(l, m, perm) =~= Seq::<Area>::empty());
    } else {
        lemma_page_areas_in_range(l, m - 1, r, perm);
        assert(page_areas(l, m, perm).drop_last() =~= page_areas(l, m - 1, perm));
        assert(page_areas(l, m, perm).last() == (Area {
            start_vpn: (m - 1) as usize,
            end_vpn: m as usize,
            perm,
        }));
        assert(starts_in(page_areas(l, m, perm).last(), l, r));
    }
}

/// Removing areas that start in a range the list nowhere touches leaves
/// the list as it was.
proof fn lemma_remove_untouched(areas: Seq<Area>, l: int, r: int)
    requires
        !overlaps_start(areas, l, r),
    ensures
        remove_starts_in(areas, l, r) == areas,
    decreases areas.len(),
{
    if areas.len() > 0 {
        assert(!starts_in(areas.last(), l, r));
        assert(forall|i: int|
            0 <= i < areas.drop_last().len() ==> #[trigger] areas.drop_last()[i] == areas[i]);
        lemma_remove_untouched(areas.drop_last(), l, r);
        assert(remove_starts_in(areas, l, r) =~= areas);
    }
}

/// Mapping a fresh region and immediately unmapping the same byte range
/// restores the area list exactly: `mmap` then `munmap` with identical
/// `start` and `len` is a round trip, for any accepted, non-overlapping
/// request.
pub proof fn lemma_mmap_munmap_roundtrip(areas: Seq<Area>, start: usize, len: usize, prot: usize)
    requires
        start + len <= usize::MAX,
        start as int % PAGE_SIZE as int == 0,
        prot < 8,
        prot % 8 != 0,
        !overlaps_start(areas, start_vpn_of(start), end_vpn_of(start, len)),
    ensures
        mmap_ret(areas, start, len, prot) == 0,
        munmap_ret(mmap_areas(areas, start, len, prot), start, len) == 0,
        munmap_areas(mmap_areas(areas, start, len, prot), start, len) == areas,
{
    if len != 0 {
        let l = start_vpn_of(start);
        let r = end_vpn_of(start, len);
        let pa = page_areas(l, r, mmap_perm(prot));
        assert(l <= r);
        assert(r <= usize::MAX) by {
            assert(start as int + len as int <= usize::MAX);
        };
        let mapped = areas + pa;
        lemma_count_concat(areas, pa, l, r);
        lemma_page_areas_in_range(l, r, r, mmap_perm(prot));
        lemma_count_nonneg(areas, l, r);
        assert(count_starts_in(mapped, l, r) >= r - l);
        lemma_remove_concat(areas, pa, l, r);
        lemma_remove_untouched(areas, l, r);
        assert(remove_starts_in(mapped, l, r) =~= areas);
    }
}

} // verus!
