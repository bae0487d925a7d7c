//! Guest memory regions that back device queues.

use vstd::prelude::*;

verus! {

/// Size of a guest page in bytes.
pub const PAGE_SIZE32: u32 = 4096;

/// Size of a guest page in bytes.
pub const PAGE_SIZE64: u64 = 4096;

/// Why a page list does not describe a region.
#[derive(Clone, Copy, Debug, PartialEq, Eq, Structural)]
pub enum DmaError {
    /// A page address is not a multiple of the page size.
    UnalignedPage,
    /// The region has length zero.
    EmptyRegion,
    /// The first byte does not lie in the first page.
    StartTooLarge,
    /// The pages do not hold `start + len` bytes.
    NotEnoughPages,
    /// The declared page count is zero.
    NoPages,
    /// The first chunk already holds more pages than were declared.
    InitialListTooLong,
    /// A further chunk holds no page.
    EmptyPageList,
    /// A further chunk would exceed the declared page count.
    TooManyPages,
    /// Pages are still missing.
    Incomplete,
}

/// A region of guest memory: the bytes `start .. start + len` of the concatenation of its pages.
pub struct DmaRegion {
    /// The list of 4KB guest page numbers (GPNs).
    gpns: Vec<u64>,
    /// The starting byte offset within the first guest page.
    start: u32,
    /// The total length of the region.
    len: u64,
}

/// What a region stands for: its page numbers, its start within the first page, its length.
pub struct RegionView {
    pub gpns: Seq<u64>,
    pub start: nat,
    pub len: nat,
}

impl RegionView {
    /// The region begins in its first page, is not empty, and lies within its pages.
    pub open spec fn valid(self) -> bool {
        &&& 0 < self.len
        &&& self.start < PAGE_SIZE64
        &&& self.start + self.len <= self.gpns.len() * PAGE_SIZE64
    }
}

impl RegionView {
    /// The region with its pages mapped a second time behind the first.
    pub open spec fn doubled(self) -> RegionView {
        RegionView { gpns: self.gpns + self.gpns, start: self.start, len: 2 * self.len }
    }
}

/// A doubled region has every page of the region twice, the second time as far behind as the region
/// has pages, and is twice as long.
pub proof fn doubled_region_repeats_its_pages(region: RegionView, i: int)
    requires
        0 <= i < region.gpns.len(),
    ensures
        region.doubled().gpns.len() == 2 * region.gpns.len(),
        region.doubled().gpns[i] == region.gpns[i],
        region.doubled().gpns[i + region.gpns.len()] == region.gpns[i],
        region.doubled().len == 2 * region.len,
        region.doubled().start == region.start,
        region.valid() && region.start == 0 ==> region.doubled().valid(),
{
}

/// Whether every address of the list is a multiple of the page size.
pub open spec fn all_page_aligned(gpas: Seq<u64>) -> bool {
    forall|i: int| 0 <= i < gpas.len() ==> #[trigger] gpas[i] % PAGE_SIZE64 == 0
}

/// The page numbers of a list of page addresses.
pub open spec fn page_numbers(gpas: Seq<u64>) -> Seq<u64> {
    gpas.map_values(|gpa: u64| gpa / PAGE_SIZE64)
}

/// The verdict on a page list, a start offset and a length: the region that they describe, or the
/// first of the conditions that fails.
pub open spec fn region_of(gpas: Seq<u64>, start: u32, len: u64) -> Result<RegionView, DmaError> {
    if !all_page_aligned(gpas) {
        Err(DmaError::UnalignedPage)
    } else if len == 0 {
        Err(DmaError::EmptyRegion)
    } else if start >= PAGE_SIZE32 {
        Err(DmaError::StartTooLarge)
    } else if gpas.len() * PAGE_SIZE64 < start + len {
        Err(DmaError::NotEnoughPages)
    } else {
        Ok(RegionView { gpns: page_numbers(gpas), start: start as nat, len: len as nat })
    }
}

impl Clone for DmaRegion {
    fn clone(&self) -> (ret: Self)
        ensures
            ret@ == self@,
    {
        let gpns: Vec<u64> = self.gpns.clone();
        assert(gpns@ =~= self.gpns@);
        DmaRegion { gpns, start: self.start, len: self.len }
    }
}

impl View for DmaRegion {
    type V = RegionView;

    closed spec fn view(&self) -> RegionView {
        RegionView { gpns: self.gpns@, start: self.start as nat, len: self.len as nat }
    }
}

/// A contiguous view of scattered guest pages.
pub struct PagedRange<'a> {
    start: u32,
    len: u64,
    gpns: &'a Vec<u64>,
}

impl<'a> View for PagedRange<'a> {
    type V = RegionView;

    closed spec fn view(&self) -> RegionView {
        RegionView { gpns: self.gpns@, start: self.start as nat, len: self.len as nat }
    }
}

impl<'a> PagedRange<'a> {
    pub fn gpns(&self) -> (ret: &Vec<u64>)
        ensures
            ret@ == self@.gpns,
    {
        self.gpns
    }

    pub fn offset(&self) -> (ret: usize)
        ensures
            ret == self@.start,
    {
        self.start as usize
    }

    pub fn len(&self) -> (ret: usize)
        ensures
            ret == self@.len as usize,
    {
        self.len as usize
    }
}

impl DmaRegion {
    pub fn new(gpas: Vec<u64>, start: u32, len: u64) -> (ret: Result<Self, DmaError>)
        requires
            gpas@.len() * PAGE_SIZE64 <= u64::MAX,
        ensures
            match ret {
                Ok(region) => region_of(gpas@, start, len) == Ok::<RegionView, DmaError>(region@),
                Err(err) => region_of(gpas@, start, len) == Err::<RegionView, DmaError>(err),
            },
            ret matches Ok(region) ==> region@.valid(),
    {
        let mut gpns: Vec<u64> = Vec::with_capacity(gpas.len());
        let mut i: usize = 0;
        while i < gpas.len()
            invariant
                i <= gpas@.len(),
                gpns@.len() == i,
                forall|k: int| 0 <= k < i ==> #[trigger] gpas@[k] % PAGE_SIZE64 == 0,
                forall|k: int| 0 <= k < i ==> #[trigger] gpns@[k] == gpas@[k] / PAGE_SIZE64,
            decreases gpas@.len() - i,
        {
            if gpas[i] % PAGE_SIZE64 != 0 {
                return Err(DmaError::UnalignedPage);
            }
            gpns.push(gpas[i] / PAGE_SIZE64);
            i = i + 1;
        }
        assert(gpns@ =~= page_numbers(gpas@));
        if len == 0 {
            return Err(DmaError::EmptyRegion);
        }
        if start >= PAGE_SIZE32 {
            return Err(DmaError::StartTooLarge);
        }
        let cap: u64 = gpns.len() as u64 * PAGE_SIZE64;
        if cap < len || cap - len < start as u64 {
            return Err(DmaError::NotEnoughPages);
        }
        Ok(DmaRegion { gpns, start, len })
    }

    /// Maps the pages of the region a second time behind the first.
    pub fn double(&mut self)
        requires
            old(self)@.start == 0,
            old(self)@.len % PAGE_SIZE64 as nat == 0,
            2 * old(self)@.len <= u64::MAX,
            2 * old(self)@.gpns.len() <= usize::MAX,
        ensures
            final(self)@ == (RegionView {
                gpns: old(self)@.gpns + old(self)@.gpns,
                start: old(self)@.start,
                len: 2 * old(self)@.len,
            }),
            final(self)@ == old(self)@.doubled(),
    {
        let n: usize = self.gpns.len();
        let ghost pages = self.gpns@;
        let mut i: usize = 0;
        while i < n
            invariant
                i <= n,
                n == pages.len(),
                2 * n <= usize::MAX,
                self.gpns@ =~= pages + pages.take(i as int),
                self.start == old(self).start,
                self.len == old(self).len,
            decreases n - i,
        {
            let gpn: u64 = self.gpns[i];
            self.gpns.push(gpn);
            i = i + 1;
        }
        assert(pages.take(i as int) =~= pages);
        self.len = self.len * 2;
    }

    pub fn len(&self) -> (ret: usize)
        ensures
            ret == self@.len as usize,
    {
        self.len as usize
    }

    /// The length of the region in bytes.
    pub fn byte_len(&self) -> (ret: u64)
        ensures
            ret == self@.len,
    {
        self.len
    }

    /// Whether start and length are both aligned to `align`.
    pub fn is_aligned_to(&self, align: usize) -> (ret: bool)
        requires
            align <= PAGE_SIZE64,
        ensures
            ret == aligned_to(self@.start as u64, self@.len as u64, align as u64),
    {
        let both: u64 = self.start as u64 | self.len;
        if align == 0 {
            both == 0
        } else {
            both % align as u64 == 0
        }
    }

    pub fn range(&self) -> (ret: PagedRange<'_>)
        ensures
            ret@ == self@,
    {
        PagedRange { start: self.start, len: self.len, gpns: &self.gpns }
    }
}

/// Whether `align` divides the bitwise union of `start` and `len`; nothing but zero is a multiple
/// of zero.
pub open spec fn aligned_to(start: u64, len: u64, align: u64) -> bool {
    if align == 0 {
        (start | len) == 0
    } else {
        (start | len) % align == 0
    }
}

/// For a power of two up to the page size, a region is aligned exactly when both its start and its
/// length are multiples.
pub proof fn aligned_to_power_of_two(start: u64, len: u64, align: u64)
    requires
        0 < align <= PAGE_SIZE64,
        align & (align - 1) as u64 == 0,
    ensures
        aligned_to(start, len, align) <==> start % align == 0 && len % align == 0,
{
    let below = (align - 1) as u64;
    assert(align & below == 0 && 0 < align && align <= 4096 && below + 1 == align ==> align == 1
        || align == 2 || align == 4 || align == 8 || align == 16 || align == 32 || align == 64
        || align == 128 || align == 256 || align == 512 || align == 1024 || align == 2048
        || align == 4096) by (bit_vector);
    assert(((start | len) % 1 == 0 <==> start % 1 == 0 && len % 1 == 0) && ((start | len) % 2 == 0
        <==> start % 2 == 0 && len % 2 == 0) && ((start | len) % 4 == 0 <==> start % 4 == 0 && len
        % 4 == 0) && ((start | len) % 8 == 0 <==> start % 8 == 0 && len % 8 == 0) && ((start | len)
        % 16 == 0 <==> start % 16 == 0 && len % 16 == 0) && ((start | len) % 32 == 0 <==> start % 32
        == 0 && len % 32 == 0) && ((start | len) % 64 == 0 <==> start % 64 == 0 && len % 64 == 0)
        && ((start | len) % 128 == 0 <==> start % 128 == 0 && len % 128 == 0) && ((start | len)
        % 256 == 0 <==> start % 256 == 0 && len % 256 == 0) && ((start | len) % 512 == 0 <==> start
        % 512 == 0 && len % 512 == 0) && ((start | len) % 1024 == 0 <==> start % 1024 == 0 && len
        % 1024 == 0) && ((start | len) % 2048 == 0 <==> start % 2048 == 0 && len % 2048 == 0) && ((
    start | len) % 4096 == 0 <==> start % 4096 == 0 && len % 4096 == 0)) by (bit_vector);
}

/// Accumulates the page list of a region that the guest delivers across several messages: an
/// initial one with the first page addresses, followed by one or more with the remainder. The
/// region is usable only once every page has arrived ([`DmaRegionBuilder::is_complete`]), at which
/// point [`DmaRegionBuilder::build`] validates the assembled list and produces a [`DmaRegion`].
pub struct DmaRegionBuilder {
    /// Raw guest page byte addresses received so far (validated on build).
    page_addrs: Vec<u64>,
    /// The byte offset within the first page.
    offset_in_page: u32,
    /// The total length of the region in bytes.
    length: u64,
    /// The total number of pages the completed region must contain.
    page_count: usize,
}

/// What a builder holds.
pub struct BuilderView {
    pub page_addrs: Seq<u64>,
    pub offset_in_page: u32,
    pub length: u64,
    pub page_count: nat,
}

impl BuilderView {
    /// No more pages have arrived than were declared, and at least one was declared.
    pub open spec fn valid(self) -> bool {
        0 < self.page_count <= u32::MAX && self.page_addrs.len() <= self.page_count
    }

    pub open spec fn complete(self) -> bool {
        self.page_addrs.len() == self.page_count
    }

    /// The verdict on starting a region.
    pub open spec fn start(
        first_pages: Seq<u64>,
        offset_in_page: u32,
        length: u64,
        page_count: u32,
    ) -> Result<BuilderView, DmaError> {
        if page_count == 0 {
            Err(DmaError::NoPages)
        } else if first_pages.len() > page_count {
            Err(DmaError::InitialListTooLong)
        } else {
            Ok(
                BuilderView {
                    page_addrs: first_pages,
                    offset_in_page,
                    length,
                    page_count: page_count as nat,
                },
            )
        }
    }

    /// The verdict on a further chunk.
    pub open spec fn append(self, pages: Seq<u64>) -> Result<BuilderView, DmaError> {
        if pages.len() == 0 {
            Err(DmaError::EmptyPageList)
        } else if self.page_addrs.len() + pages.len() > self.page_count {
            Err(DmaError::TooManyPages)
        } else {
            Ok(BuilderView { page_addrs: self.page_addrs + pages, ..self })
        }
    }

    /// The verdict on finishing the region.
    pub open spec fn finish(self) -> Result<RegionView, DmaError> {
        if !self.complete() {
            Err(DmaError::Incomplete)
        } else {
            region_of(self.page_addrs, self.offset_in_page, self.length)
        }
    }
}

impl View for DmaRegionBuilder {
    type V = BuilderView;

    closed spec fn view(&self) -> BuilderView {
        BuilderView {
            page_addrs: self.page_addrs@,
            offset_in_page: self.offset_in_page,
            length: self.length,
            page_count: self.page_count as nat,
        }
    }
}

impl DmaRegionBuilder {
    /// Starts a region from the first chunk of page addresses and the declared total `page_count`.
    /// `first_pages` may already complete the region (when the guest sent the whole list in one
    /// message).
    pub fn new(first_pages: Vec<u64>, offset_in_page: u32, length: u64, page_count: u32) -> (ret:
        Result<Self, DmaError>)
        ensures
            match ret {
                Ok(builder) => BuilderView::start(first_pages@, offset_in_page, length, page_count)
                    == Ok::<BuilderView, DmaError>(builder@),
                Err(err) => BuilderView::start(first_pages@, offset_in_page, length, page_count)
                    == Err::<BuilderView, DmaError>(err),
            },
            ret matches Ok(builder) ==> builder@.valid(),
    {
        let page_count: usize = page_count as usize;
        if page_count == 0 {
            return Err(DmaError::NoPages);
        }
        if first_pages.len() > page_count {
            return Err(DmaError::InitialListTooLong);
        }
        Ok(DmaRegionBuilder { page_addrs: first_pages, offset_in_page, length, page_count })
    }

    /// Appends a chunk of page addresses. Fails, and leaves the list as it was, if the chunk is
    /// empty or would overflow the declared page count.
    pub fn add_pages(&mut self, pages: &[u64]) -> (ret: Result<(), DmaError>)
        requires
            old(self)@.valid(),
        ensures
            match ret {
                Ok(()) => old(self)@.append(pages@) == Ok::<BuilderView, DmaError>(final(self)@),
                Err(err) => old(self)@.append(pages@) == Err::<BuilderView, DmaError>(err)
                    && final(self)@ == old(self)@,
            },
            final(self)@.valid(),
    {
        if pages.len() == 0 {
            return Err(DmaError::EmptyPageList);
        }
        if pages.len() > self.page_count - self.page_addrs.len() {
            return Err(DmaError::TooManyPages);
        }
        let ghost before = self.page_addrs@;
        let mut i: usize = 0;
        while i < pages.len()
            invariant
                i <= pages@.len(),
                self.page_addrs@ =~= before + pages@.take(i as int),
                self.offset_in_page == old(self).offset_in_page,
                self.length == old(self).length,
                self.page_count == old(self).page_count,
            decreases pages@.len() - i,
        {
            self.page_addrs.push(pages[i]);
            i = i + 1;
        }
        assert(pages@.take(i as int) =~= pages@);
        Ok(())
    }

    /// Whether every page of the region has been received.
    pub fn is_complete(&self) -> (ret: bool)
        ensures
            ret == self@.complete(),
    {
        self.page_addrs.len() == self.page_count
    }

    /// Validates the assembled page list and produces the finished region. Fails if the region is
    /// not yet complete.
    pub fn build(&self) -> (ret: Result<DmaRegion, DmaError>)
        requires
            self@.valid(),
        ensures
            match ret {
                Ok(region) => self@.finish() == Ok::<RegionView, DmaError>(region@),
                Err(err) => self@.finish() == Err::<RegionView, DmaError>(err),
            },
            ret matches Ok(region) ==> region@.valid(),
    {
        if !self.is_complete() {
            return Err(DmaError::Incomplete);
        }
        let pages: Vec<u64> = self.page_addrs.clone();
        assert(pages@ =~= self.page_addrs@);
        DmaRegion::new(pages, self.offset_in_page, self.length)
    }
}

} // verus!
