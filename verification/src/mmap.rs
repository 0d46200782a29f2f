//! The page allocator's verified planning layer.
//!
//! The allocator owns one immutable value, the OS page size, and computes
//! every arithmetic step of the allocation algorithm: normalizing a request,
//! deciding whether a fresh page-aligned mapping already satisfies the
//! requested alignment, sizing the padded retry request, and trimming an
//! over-sized mapping down to the exactly-aligned, exactly-sized block.
//!
//! The OS mapping and unmapping calls themselves are performed by a driver
//! outside this crate. The protocol is: [`Mmap::normalize`] the request, map
//! `n.size` bytes, hand the address to [`Mmap::alloc_mapped`]; on a
//! [`AllocNext::Retry`] answer, release the first mapping, map `padded_len`
//! bytes, and hand that address to [`Mmap::trim`], which says exactly which
//! leading and trailing slack to release and which block to keep.

use vstd::prelude::*;
use crate::align::{
    is_power_of_two, lemma_align_offset_bounds, lemma_align_offset_page, lemma_divides_trans,
    lemma_mod_diff_zero, lemma_power_of_two_divides, lemma_power_of_two_pos, power_of_two,
    spec_align_offset, spec_round_up,
};
use crate::shape::{Shape, Tag};
use vstd::arithmetic::div_mod::lemma_mod_self_0;

verus! {

/// The failure taxonomy of the page allocator.
#[derive(Clone, Copy, Debug, PartialEq, Eq, Structural)]
pub enum MmapErr {
    /// The OS mapping primitive failed; carries the raw OS error code.
    Os(i32),
    /// A padded-size or offset computation would exceed the address width.
    Overflow,
    /// An over-sized mapping cannot contain an aligned block of the
    /// requested shape.
    NoAlign,
    /// The request itself is unusable: its alignment is not a power of two,
    /// or normalizing it overflows. Rejected before any OS call.
    Layout,
}

/// A half-open range of addresses, `[addr, addr + size)`.
#[derive(Clone, Copy, Debug, PartialEq, Eq, Structural)]
pub struct Region {
    pub addr: usize,
    pub size: usize,
}

impl Region {
    /// One past the last address of the region.
    pub open spec fn end(&self) -> int {
        self.addr + self.size
    }
}

/// Two regions share no address.
pub open spec fn disjoint(a: Region, b: Region) -> bool {
    a.end() <= b.addr || b.end() <= a.addr
}

/// What the driver must do after the first mapping of an allocation.
#[derive(Clone, Copy, Debug)]
pub enum AllocNext {
    /// The fresh mapping already satisfies the alignment: keep it.
    Done(Tag),
    /// The mapping is unusable: release exactly `release`, then map
    /// `padded_len` bytes and trim that region.
    Retry { release: Region, padded_len: usize },
    /// The padded request cannot be represented; the first mapping must
    /// still be released as `release`.
    Fail { release: Region, err: MmapErr },
}

/// The page allocator: a single immutable page size, queried once.
pub struct Mmap {
    pagesize: usize,
}

/// Relies on `rustix::param::page_size`: returns this process's page size,
/// as `sysconf(_SC_PAGESIZE)` reports it.
#[verifier::external_body]
fn os_page_size() -> usize {
    rustix::param::page_size()
}

impl Mmap {
    /// The page size this allocator was built with.
    pub closed spec fn spec_pagesize(&self) -> usize {
        self.pagesize
    }

    /// A usable allocator: its page size is a power of two.
    pub open spec fn wf(&self) -> bool {
        is_power_of_two(self.spec_pagesize() as nat)
    }

    /// A shape as the normalization step leaves it: page-multiple alignment
    /// of at least one page, and a size that is a multiple of both.
    pub open spec fn normalized(&self, n: Shape) -> bool {
        &&& is_power_of_two(n.align as nat)
        &&& n.align >= self.spec_pagesize()
        &&& (n.align as int) % (self.spec_pagesize() as int) == 0
        &&& (n.size as int) % (n.align as int) == 0
        &&& (n.size as int) % (self.spec_pagesize() as int) == 0
    }

    /// Builds an allocator around the page size the OS reports, or `None`
    /// in the never-observed case that the report is not a power of two.
    pub fn new() -> (r: Option<Mmap>)
        ensures
            r matches Some(m) ==> m.wf(),
    {
        let pagesize = os_page_size();
        if power_of_two(pagesize) {
            Some(Mmap { pagesize })
        } else {
            None
        }
    }

    /// Builds an allocator for a given page size.
    pub fn with_pagesize(pagesize: usize) -> (m: Mmap)
        requires
            is_power_of_two(pagesize as nat),
        ensures
            m.spec_pagesize() == pagesize,
            m.wf(),
    {
        Mmap { pagesize }
    }

    /// The page size this allocator was built with.
    pub fn pagesize(&self) -> (p: usize)
        ensures
            p == self.spec_pagesize(),
    {
        self.pagesize
    }

    /// Normalizes a request: the alignment is rounded up to at least one
    /// page, and the size is rounded up to a multiple of that alignment.
    /// An unusable request — an alignment that is not a power of two, or a
    /// size whose rounding overflows the address width — is rejected as
    /// `Layout`, before any OS call.
    pub fn normalize(&self, shape: Shape) -> (r: Result<Shape, MmapErr>)
        requires
            self.wf(),
        ensures
            ({
                let na = if shape.align >= self.spec_pagesize() {
                    shape.align as int
                } else {
                    self.spec_pagesize() as int
                };
                match r {
                    Ok(n) => {
                        &&& is_power_of_two(shape.align as nat)
                        &&& n.align == na
                        &&& n.size == spec_round_up(shape.size as int, na)
                        &&& self.normalized(n)
                        &&& n.size >= shape.size
                        &&& (n.align as int) % (shape.align as int) == 0
                        &&& spec_round_up(shape.size as int, na) <= usize::MAX
                    },
                    Err(e) => {
                        &&& e == MmapErr::Layout
                        &&& (!is_power_of_two(shape.align as nat) || spec_round_up(
                            shape.size as int,
                            na,
                        ) > usize::MAX)
                    },
                }
            }),
    {
        if !power_of_two(shape.align) {
            return Err(MmapErr::Layout);
        }
        let align = if shape.align >= self.pagesize {
            shape.align
        } else {
            self.pagesize
        };
        proof {
            lemma_power_of_two_pos(align as nat);
            lemma_power_of_two_pos(self.spec_pagesize() as nat);
            if shape.align >= self.spec_pagesize() {
                lemma_power_of_two_divides(self.spec_pagesize() as nat, align as nat);
            } else {
                lemma_mod_self_0(align as int);
                lemma_power_of_two_divides(shape.align as nat, align as nat);
            }
            lemma_mod_self_0(align as int);
            lemma_align_offset_bounds(shape.size as int, align as int);
        }
        let m = shape.size % align;
        let size = if m == 0 {
            shape.size
        } else {
            let pad = align - m;
            if shape.size > usize::MAX - pad {
                return Err(MmapErr::Layout);
            }
            shape.size + pad
        };
        let n = Shape { size, align };
        proof {
            assert((n.size as int) % (n.align as int) == 0) by {
                lemma_align_offset_bounds(shape.size as int, align as int);
            }
            assert((n.size as int) % (self.spec_pagesize() as int) == 0) by {
                if n.size as int != 0 {
                    lemma_divides_trans(n.size as int, n.align as int, self.spec_pagesize() as int);
                } else {
                    vstd::arithmetic::div_mod::lemma_small_mod(0nat, self.spec_pagesize() as nat);
                }
            }
        }
        Ok(n)
    }

    /// The decision after the first mapping: `addr` is where the OS placed
    /// `n.size` fresh bytes. If it already satisfies `n.align`, the
    /// allocation is done; otherwise that mapping must be released and a
    /// padded request mapped, unless the padded size overflows.
    pub fn alloc_mapped(&self, n: Shape, addr: usize) -> (r: AllocNext)
        requires
            self.wf(),
            self.normalized(n),
            addr != 0,
            (addr as int) % (self.spec_pagesize() as int) == 0,
            addr + n.size <= usize::MAX + 1,
        ensures
            ({
                let first = Region { addr, size: n.size };
                if (addr as int) % (n.align as int) == 0 {
                    r matches AllocNext::Done(tag) && tag.spec_ptr() == addr
                        && tag.spec_layout() == n && tag.wf()
                } else if n.size + n.align - self.spec_pagesize() <= usize::MAX {
                    r matches AllocNext::Retry { release, padded_len }
                        && release == first
                        && padded_len == n.size + n.align - self.spec_pagesize()
                } else {
                    r matches AllocNext::Fail { release, err }
                        && release == first && err == MmapErr::Overflow
                }
            }),
    {
        proof {
            lemma_power_of_two_pos(n.align as nat);
        }
        if addr % n.align == 0 {
            AllocNext::Done(Tag::new(addr, n))
        } else {
            let release = Region { addr, size: n.size };
            match self.alloc_slow(n) {
                Ok(padded_len) => AllocNext::Retry { release, padded_len },
                Err(err) => AllocNext::Fail { release, err },
            }
        }
    }

    /// The padded request size for the slow path: `n.size` plus the worst-
    /// case distance from a page-aligned address to the next `n.align`
    /// boundary. Overflow of this sum is a recoverable failure.
    pub fn alloc_slow(&self, n: Shape) -> (r: Result<usize, MmapErr>)
        requires
            self.wf(),
            self.normalized(n),
        ensures
            match r {
                Ok(len) => len == n.size + n.align - self.spec_pagesize(),
                Err(e) => {
                    e == MmapErr::Overflow && n.size + n.align - self.spec_pagesize()
                        > usize::MAX
                },
            },
    {
        let pad = n.align - self.pagesize;
        if n.size > usize::MAX - pad {
            Err(MmapErr::Overflow)
        } else {
            Ok(n.size + pad)
        }
    }

    /// Cuts a block of shape `n` out of the mapping of `alloc_size` bytes at
    /// `alloc_addr`: the leading slack up to the first `n.align` boundary
    /// and the trailing slack after the block are to be released, and the
    /// exactly-aligned middle block is retained. Fails with `NoAlign` when
    /// no aligned block of `n.size` bytes fits in the mapping, and with
    /// `Overflow` in the extreme case that the aligned address itself would
    /// exceed the address width.
    pub fn trim(&self, alloc_addr: usize, alloc_size: usize, n: Shape) -> (r: Result<
        TrimPlan,
        MmapErr,
    >)
        requires
            self.wf(),
            self.normalized(n),
            alloc_addr != 0,
            (alloc_addr as int) % (self.spec_pagesize() as int) == 0,
            (alloc_size as int) % (self.spec_pagesize() as int) == 0,
            alloc_addr + alloc_size <= usize::MAX + 1,
        ensures
            ({
                let ost = spec_align_offset(alloc_addr as int, n.align as int);
                match r {
                    Ok(plan) => {
                        &&& ost + n.size <= alloc_size
                        &&& plan.wf(self)
                        &&& plan.head == (Region { addr: alloc_addr, size: ost as usize })
                        &&& plan.tag.spec_ptr() == alloc_addr + ost
                        &&& plan.tag.spec_layout() == n
                        &&& plan.tail.size == alloc_size - ost - n.size
                        &&& plan.tail.size != 0 ==> plan.tail.addr == alloc_addr + ost + n.size
                        &&& plan.tail.size == 0 ==> plan.tail.addr == alloc_addr + ost
                        &&& plan.head.size + plan.tail.size == alloc_size - n.size
                    },
                    Err(e) => {
                        if ost + n.size > alloc_size {
                            e == MmapErr::NoAlign
                        } else {
                            e == MmapErr::Overflow && alloc_addr + ost > usize::MAX
                        }
                    },
                }
            }),
    {
        proof {
            lemma_power_of_two_pos(n.align as nat);
            lemma_power_of_two_pos(self.spec_pagesize() as nat);
            lemma_align_offset_bounds(alloc_addr as int, n.align as int);
            lemma_align_offset_page(
                alloc_addr as int,
                n.align as int,
                self.spec_pagesize() as int,
            );
        }
        let m = alloc_addr % n.align;
        let ost = if m == 0 {
            0
        } else {
            n.align - m
        };
        if ost > alloc_size || n.size > alloc_size - ost {
            return Err(MmapErr::NoAlign);
        }
        if ost > usize::MAX - alloc_addr {
            return Err(MmapErr::Overflow);
        }
        let aligned = alloc_addr + ost;
        let trim_end = alloc_size - ost - n.size;
        proof {
            lemma_mod_diff_zero(
                alloc_size as int,
                ost as int,
                self.spec_pagesize() as int,
            );
            lemma_mod_diff_zero(
                (alloc_size - ost) as int,
                n.size as int,
                self.spec_pagesize() as int,
            );
            lemma_mod_diff_zero(
                alloc_addr as int,
                ost as int,
                self.spec_pagesize() as int,
            );
            vstd::arithmetic::div_mod::lemma_small_mod(0nat, self.spec_pagesize() as nat);
            assert((aligned as int) % (n.align as int) == 0);
            lemma_mod_diff_zero(
                aligned as int,
                n.size as int,
                self.spec_pagesize() as int,
            );
        }
        let tag = Tag::new(aligned, n);
        let tail = if trim_end == 0 {
            Region { addr: aligned, size: 0 }
        } else {
            Region { addr: aligned + n.size, size: trim_end }
        };
        Ok(TrimPlan { head: Region { addr: alloc_addr, size: ost }, tag, tail })
    }

    /// The release plan for a tag this allocator produced: exactly the
    /// range the tag stands for is handed back to the OS.
    pub fn free(&self, tag: Tag) -> (r: Region)
        requires
            self.wf(),
            tag.wf(),
            (tag.spec_ptr() as int) % (self.spec_pagesize() as int) == 0,
            (tag.spec_layout().size as int) % (self.spec_pagesize() as int) == 0,
        ensures
            r.addr == tag.spec_ptr(),
            r.size == tag.spec_layout().size,
    {
        Region { addr: tag.ptr(), size: tag.layout().size }
    }
}

/// The trim step's answer: release `head` and `tail` (when non-empty),
/// keep the block `tag` stands for.
#[derive(Clone, Copy, Debug)]
pub struct TrimPlan {
    /// Leading slack, from the mapping's start to the aligned block.
    pub head: Region,
    /// The retained, exactly-aligned, exactly-sized block.
    pub tag: Tag,
    /// Trailing slack, from the block's end to the mapping's end.
    pub tail: Region,
}

impl TrimPlan {
    /// The retained block as a region.
    pub open spec fn keep(&self) -> Region {
        Region { addr: self.tag.spec_ptr(), size: self.tag.spec_layout().size }
    }

    /// Internal consistency of a plan: the three regions are adjacent, in
    /// order, pairwise disjoint, page-granular, and the kept block is
    /// aligned as requested.
    pub open spec fn wf(&self, m: &Mmap) -> bool {
        &&& self.tag.wf()
        &&& self.head.end() == self.tag.spec_ptr()
        &&& self.tail.size != 0 ==> self.keep().end() == self.tail.addr
        &&& disjoint(self.head, self.keep())
        &&& disjoint(self.keep(), self.tail)
        &&& disjoint(self.head, self.tail)
        &&& (self.head.size as int) % (m.spec_pagesize() as int) == 0
        &&& (self.tail.size as int) % (m.spec_pagesize() as int) == 0
        &&& (self.head.addr as int) % (m.spec_pagesize() as int) == 0
        &&& (self.tag.spec_ptr() as int) % (m.spec_pagesize() as int) == 0
        &&& (self.tail.addr as int) % (m.spec_pagesize() as int) == 0
        &&& (self.tag.spec_ptr() as int) % (self.tag.spec_layout().align as int) == 0
    }
}

/// Law: for every valid request, any tag the allocation protocol yields —
/// whether the fast path kept the first mapping or the slow path trimmed a
/// padded one — satisfies the request: its address is aligned to the
/// requested alignment (normalization only enlarges the alignment, to a
/// multiple of the requested one) and it covers at least the requested
/// bytes. The hypotheses are exactly what [`Mmap::normalize`] ensures of
/// `n` and what [`Mmap::alloc_mapped`] and [`Mmap::trim`] ensure of the
/// tags they build.
pub proof fn lemma_alloc_tag_satisfies_request(m: Mmap, shape: Shape, n: Shape, t: Tag)
    requires
        m.wf(),
        is_power_of_two(shape.align as nat),
        n.align >= shape.align,
        (n.align as int) % (shape.align as int) == 0,
        n.size >= shape.size,
        t.spec_layout() == n,
        t.wf(),
        (t.spec_ptr() as int) % (n.align as int) == 0,
    ensures
        crate::caps::satisfies(t, shape),
{
    lemma_power_of_two_pos(shape.align as nat);
    lemma_power_of_two_pos(n.align as nat);
    lemma_divides_trans(t.spec_ptr() as int, n.align as int, shape.align as int);
}

/// Law: the slow path's padded request always fits an aligned block. A
/// page-aligned mapping of `n.size + (n.align - pagesize)` bytes is at most
/// `n.align - pagesize` bytes short of the next `n.align` boundary, so an
/// aligned run of `n.size` bytes lies inside it and [`Mmap::trim`] succeeds.
/// The total slack released around the block is the padded length minus
/// `n.size`.
pub proof fn lemma_slow_path_fits(m: Mmap, n: Shape, addr: usize, len: usize)
    requires
        m.wf(),
        m.normalized(n),
        n.size >= 1,
        addr != 0,
        (addr as int) % (m.spec_pagesize() as int) == 0,
        len == n.size + n.align - m.spec_pagesize(),
        addr + len <= usize::MAX + 1,
    ensures
        spec_align_offset(addr as int, n.align as int) + n.size <= len,
        addr + spec_align_offset(addr as int, n.align as int) <= usize::MAX,
{
    lemma_power_of_two_pos(n.align as nat);
    lemma_power_of_two_pos(m.spec_pagesize() as nat);
    lemma_align_offset_bounds(addr as int, n.align as int);
    lemma_align_offset_page(addr as int, n.align as int, m.spec_pagesize() as int);
}

} // verus!
