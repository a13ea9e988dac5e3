//! Windowed listing: a page of rows together with the total row count.

use vstd::prelude::*;

verus! {

/// Largest page size a caller may ask for.
pub const MAX_PER_PAGE: i64 = 100;

/// Page size used when a query is paginated without an explicit size.
pub const DEFAULT_PER_PAGE: i64 = 10;

/// Page used when none is given.
pub const DEFAULT_PAGE: i64 = 1;

/// Number of pages of `per_page` rows needed to hold `total_items` rows:
/// the least `n >= 0` with `n * per_page >= total_items`.
pub open spec fn ceil_div(total_items: int, per_page: int) -> int
    recommends
        total_items >= 0,
        per_page >= 1,
{
    (total_items + per_page - 1) / per_page
}

/// Offset of the first row of `page` when pages hold `per_page` rows.
pub open spec fn offset_of(page: int, per_page: int) -> int {
    (page - 1) * per_page
}

/// The page asked for, at least one; the first when none is given.
pub open spec fn page_or_default(page: Option<i64>) -> i64 {
    match page {
        None => DEFAULT_PAGE,
        Some(p) => if p < 1 { 1 } else { p },
    }
}

/// The page size asked for, clamped to `[1, MAX_PER_PAGE]`; the maximum
/// when none is given.
pub open spec fn per_page_or_default(per_page: Option<i64>) -> i64 {
    match per_page {
        None => MAX_PER_PAGE,
        Some(p) => if p < 1 { 1 } else if p > MAX_PER_PAGE { MAX_PER_PAGE } else { p },
    }
}

/// Turns optional query parameters into a page number (at least one) and a
/// page size clamped to `[1, MAX_PER_PAGE]`; a missing size asks for the maximum.
pub fn set_pagination_defaults(page: Option<i64>, per_page: Option<i64>) -> (r: (i64, i64))
    ensures
        r.0 == page_or_default(page),
        r.1 == per_page_or_default(per_page),
{
    let page = match page {
        None => DEFAULT_PAGE,
        Some(p) => if p < 1 { 1 } else { p },
    };
    let per_page = match per_page {
        None => MAX_PER_PAGE,
        Some(p) => if p < 1 { 1 } else if p > MAX_PER_PAGE { MAX_PER_PAGE } else { p },
    };
    (page, per_page)
}

/// `ceil_div` is the least page count that holds every row.
pub proof fn lemma_ceil_div(total_items: int, per_page: int)
    requires
        total_items >= 0,
        per_page >= 1,
    ensures
        ceil_div(total_items, per_page) >= 0,
        ceil_div(total_items, per_page) * per_page >= total_items,
        ceil_div(total_items, per_page) == 0 || (ceil_div(total_items, per_page) - 1) * per_page
            < total_items,
{
    let n = ceil_div(total_items, per_page);
    let q = total_items / per_page;
    let rem = total_items % per_page;
    assert(total_items == q * per_page + rem && 0 <= rem < per_page) by (nonlinear_arith)
        requires
            per_page >= 1,
            q == total_items / per_page,
            rem == total_items % per_page,
    ;
    assert(n == if rem == 0 { q } else { q + 1 }) by (nonlinear_arith)
        requires
            per_page >= 1,
            total_items == q * per_page + rem,
            0 <= rem < per_page,
            n == (total_items + per_page - 1) / per_page,
    ;
    assert(q >= 0) by (nonlinear_arith)
        requires
            per_page >= 1,
            total_items >= 0,
            q == total_items / per_page,
    ;
    assert(n * per_page >= total_items) by (nonlinear_arith)
        requires
            total_items == q * per_page + rem,
            0 <= rem < per_page,
            n == if rem == 0 { q } else { q + 1 },
    ;
    assert(n == 0 || (n - 1) * per_page < total_items) by (nonlinear_arith)
        requires
            total_items == q * per_page + rem,
            0 <= rem < per_page,
            q >= 0,
            n == if rem == 0 { q } else { q + 1 },
    ;
}

/// Number of pages for `total_items` rows: `ceil(total_items / per_page)`.
pub fn total_pages(total_items: i64, per_page: i64) -> (r: i64)
    requires
        total_items >= 0,
        per_page >= 1,
    ensures
        r == ceil_div(total_items as int, per_page as int),
        r >= 0,
        r * per_page >= total_items,
        r == 0 || (r - 1) * per_page < total_items,
{
    proof {
        lemma_ceil_div(total_items as int, per_page as int);
    }
    let q = total_items / per_page;
    let rem = total_items % per_page;
    proof {
        assert(ceil_div(total_items as int, per_page as int) == if rem == 0 { q as int } else { q + 1 }) by (nonlinear_arith)
            requires
                per_page >= 1,
                total_items >= 0,
                q == total_items / per_page,
                rem == total_items % per_page,
        {
            assert(total_items == q * per_page + rem && 0 <= rem < per_page);
        }
    }
    if rem == 0 {
        q
    } else {
        proof {
            assert(q < i64::MAX) by (nonlinear_arith)
                requires
                    per_page >= 1,
                    total_items >= 0,
                    q == total_items / per_page,
                    rem == total_items % per_page,
                    rem != 0,
            {
                assert(total_items == q * per_page + rem && 0 <= rem < per_page);
                assert(per_page >= 2);
                assert(q * 2 <= q * per_page);
            }
        }
        q + 1
    }
}

/// The offset of any page of any size of `i64` fits in an `i128`.
proof fn lemma_offset_fits_i128(page: int, per_page: int)
    requires
        i64::MIN <= page <= i64::MAX,
        i64::MIN <= per_page <= i64::MAX,
    ensures
        i128::MIN <= (page - 1) * per_page <= i128::MAX,
{
    let a = page - 1;
    assert(-0x8000_0000_0000_0001 <= a <= 0x7fff_ffff_ffff_fffe);
    assert(-0x4000_0000_0000_0000_8000_0000_0000_0000 <= a * per_page <= 0x4000_0000_0000_0000_8000_0000_0000_0000) by (nonlinear_arith)
        requires
            -0x8000_0000_0000_0001 <= a <= 0x7fff_ffff_ffff_fffe,
            -0x8000_0000_0000_0000 <= per_page <= 0x7fff_ffff_ffff_ffff,
    ;
}

/// A query together with the page of its rows that is asked for.
#[derive(Debug)]
pub struct Paginated<T> {
    query: T,
    page: i64,
    per_page: i64,
    offset: i128,
}

/// One page of rows and the counts that place it among all rows.
#[derive(Debug)]
pub struct PaginationResult<T> {
    pub items: Vec<T>,
    pub total_items: i64,
    pub total_pages: i64,
    pub page: i64,
    pub per_page: i64,
}

/// Any query can be paginated.
pub trait Paginate: Sized {
    /// Asks for page `page` of this query with the default page size.
    fn paginate(self, page: i64) -> (r: Paginated<Self>)
        ensures
            r.query() == self,
            r.page() == page,
            r.page_size() == DEFAULT_PER_PAGE,
            r.wf(),
    ;
}

impl<T> Paginate for T {
    fn paginate(self, page: i64) -> (r: Paginated<Self>) {
        proof {
            lemma_offset_fits_i128(page as int, DEFAULT_PER_PAGE as int);
        }
        Paginated { query: self, per_page: DEFAULT_PER_PAGE, page, offset: (page as i128 - 1) * DEFAULT_PER_PAGE as i128 }
    }
}

impl<T> Paginated<T> {
    /// The offset is the one of the page asked for.
    pub open spec fn wf(&self) -> bool {
        self.offset() == offset_of(self.page() as int, self.page_size() as int)
    }

    pub closed spec fn query(&self) -> T {
        self.query
    }

    pub closed spec fn page(&self) -> i64 {
        self.page
    }

    pub closed spec fn page_size(&self) -> i64 {
        self.per_page
    }

    pub closed spec fn offset(&self) -> int {
        self.offset as int
    }

    /// The same query and page with `per_page` rows to a page.
    pub fn per_page(self, per_page: i64) -> (r: Self)
        ensures
            r.query() == self.query(),
            r.page() == self.page(),
            r.page_size() == per_page,
            r.wf(),
    {
        proof {
            lemma_offset_fits_i128(self.page as int, per_page as int);
        }
        let offset = (self.page as i128 - 1) * per_page as i128;
        Paginated { query: self.query, page: self.page, per_page, offset }
    }

    /// Builds the page from the rows that the windowed query returned and
    /// the count of all rows of the unwindowed query.
    pub fn load_and_count_pages<U>(self, rows: Vec<U>, total_items: i64) -> (r: PaginationResult<U>)
        requires
            self.page_size() >= 1,
            total_items >= 0,
        ensures
            r.items@ == rows@,
            r.total_items == total_items,
            r.total_pages == ceil_div(total_items as int, self.page_size() as int),
            r.page == self.page(),
            r.per_page == self.page_size(),
    {
        let total_pages = total_pages(total_items, self.per_page);
        PaginationResult { items: rows, total_items, total_pages, page: self.page, per_page: self.per_page }
    }
}

impl<U> Paginated<Vec<U>> {
    /// Runs the paginated query over rows already in order: the window of rows
    /// of the page asked for, and the count of all rows.
    pub fn load(self) -> (r: PaginationResult<U>)
        requires
            self.wf(),
            self.page() >= 1,
            self.page_size() >= 1,
            self.query()@.len() <= i64::MAX,
        ensures
            r.items@ == window(self.query()@, self.offset(), self.page_size() as int),
            r.total_items == self.query()@.len(),
            r.total_pages == ceil_div(self.query()@.len() as int, self.page_size() as int),
            r.page == self.page(),
            r.per_page == self.page_size(),
    {
        let mut rows = self.query;
        let total_items = rows.len() as i64;
        proof {
            assert(self.offset >= 0) by (nonlinear_arith)
                requires
                    self.offset == (self.page - 1) * self.per_page,
                    self.page >= 1,
                    self.per_page >= 1,
            ;
        }
        let mut items = if self.offset <= rows.len() as i128 {
            rows.split_off(self.offset as usize)
        } else {
            Vec::new()
        };
        if (self.per_page as u64) <= usize::MAX as u64 {
            items.truncate(self.per_page as usize);
        }
        let total_pages = total_pages(total_items, self.per_page);
        PaginationResult { items, total_items, total_pages, page: self.page, per_page: self.per_page }
    }
}

/// The rows of `s` from `offset` on, at most `len` of them.
pub open spec fn window<U>(s: Seq<U>, offset: int, len: int) -> Seq<U> {
    if offset >= s.len() {
        Seq::empty()
    } else if offset + len >= s.len() {
        s.subrange(offset, s.len() as int)
    } else {
        s.subrange(offset, offset + len)
    }
}

} // verus!
