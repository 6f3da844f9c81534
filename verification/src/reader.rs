use vstd::prelude::*;

use crate::render::{
    bottom_line, bottom_row, data_row, empty_line, empty_row, line, top_line, top_row,
};

verus! {

/// Number of bytes a dump takes from a source offering `avail` bytes:
/// everything in read-all mode, otherwise at most the requested limit.
pub open spec fn total_rendered(avail: int, read_all: bool, limit: int) -> int {
    if read_all {
        avail
    } else if limit <= avail {
        limit
    } else {
        avail
    }
}

/// Number of data rows that `total` bytes fill at `w` bytes per row.
pub open spec fn row_count(total: int, w: int) -> int
    recommends
        w > 0,
{
    if total <= 0 {
        0
    } else {
        (total + w - 1) / w
    }
}

/// Length of the chunk shown on data row `j`, counting rows from zero:
/// a full row of `w` bytes for every row but possibly the last.
pub open spec fn chunk_len(total: int, w: int, j: int) -> int
    recommends
        w > 0,
        0 <= j < row_count(total, w),
{
    if (j + 1) * w <= total {
        w
    } else {
        total - j * w
    }
}

/// Summed length of the chunks on the first `m` data rows.
pub open spec fn chunk_len_sum(total: int, w: int, m: int) -> int
    decreases m,
{
    if m <= 0 {
        0
    } else {
        chunk_len_sum(total, w, m - 1) + chunk_len(total, w, m - 1)
    }
}

proof fn lemma_chunk_len_sum_partial(total: int, w: int, m: int)
    requires
        w > 0,
        total >= 0,
        0 <= m <= row_count(total, w),
    ensures
        chunk_len_sum(total, w, m) == if m * w <= total {
            m * w
        } else {
            total
        },
    decreases m,
{
    if m == 0 {
        assert(m * w == 0) by (nonlinear_arith)
            requires
                m == 0,
        ;
    } else {
        lemma_chunk_len_sum_partial(total, w, m - 1);
        let k = row_count(total, w);
        vstd::arithmetic::div_mod::lemma_fundamental_div_mod(total + w - 1, w);
        vstd::arithmetic::div_mod::lemma_mod_bound(total + w - 1, w);
        vstd::arithmetic::mul::lemma_mul_inequality(m - 1, k - 1, w);
        assert(m * w == (m - 1) * w + w) by (nonlinear_arith);
        assert(k * w == (k - 1) * w + w) by (nonlinear_arith);
        assert(w * ((total + w - 1) / w) == ((total + w - 1) / w) * w) by (nonlinear_arith);
        assert((m - 1) * w < total);
        assert(chunk_len_sum(total, w, m) == chunk_len_sum(total, w, m - 1) + chunk_len(
            total,
            w,
            m - 1,
        ));
        if m * w <= total {
            assert(chunk_len(total, w, m - 1) == w);
            assert(chunk_len_sum(total, w, m) == m * w);
        } else {
            assert(chunk_len(total, w, m - 1) == total - (m - 1) * w);
            assert(chunk_len_sum(total, w, m) == total);
        }
    }
}

/// The chunk lengths of a dump, summed over all of its data rows, account
/// for exactly the rendered byte total: `min(byte_limit, available)` in
/// bounded mode, everything available in read-all mode. In particular no
/// dump ever shows more bytes than its limit allows.
pub proof fn lemma_chunk_lengths_sum(avail: int, read_all: bool, limit: int, w: int)
    requires
        w > 0,
        avail >= 0,
        limit >= 0,
    ensures
        chunk_len_sum(
            total_rendered(avail, read_all, limit),
            w,
            row_count(total_rendered(avail, read_all, limit), w),
        ) == total_rendered(avail, read_all, limit),
        !read_all ==> total_rendered(avail, read_all, limit) <= limit,
{
    let total = total_rendered(avail, read_all, limit);
    let k = row_count(total, w);
    lemma_chunk_len_sum_partial(total, w, k);
    if total > 0 {
        vstd::arithmetic::div_mod::lemma_fundamental_div_mod(total + w - 1, w);
        vstd::arithmetic::div_mod::lemma_mod_bound(total + w - 1, w);
        assert(k * w >= total) by (nonlinear_arith)
            requires
                w > 0,
                total > 0,
                total + w - 1 == w * k + (total + w - 1) % w,
                0 <= (total + w - 1) % w < w,
        ;
    }
}

/// Book-keeping for the bounded / unbounded read loop: whether the loop
/// reads until exhaustion, how many bytes it may still take, and the
/// display offset the next chunk carries.
pub struct ChunkReader {
    /// True when reading until the source is exhausted.
    pub read_all: bool,
    /// Bytes still owed in bounded mode; effectively unbounded otherwise.
    pub remaining: usize,
    /// Display offset of the next chunk.
    pub offset: usize,
}

impl ChunkReader {
    pub fn new(read_all: bool, num_to_read: usize, start_offset: usize) -> (r: ChunkReader)
        ensures
            r.read_all == read_all,
            r.remaining == if read_all {
                usize::MAX as int
            } else {
                num_to_read as int
            },
            r.offset == start_offset,
    {
        ChunkReader {
            read_all,
            remaining: if read_all {
                usize::MAX
            } else {
                num_to_read
            },
            offset: start_offset,
        }
    }

    /// How many bytes to request for the next chunk: a full row, capped in
    /// bounded mode by what is still owed, so the dump can never take more
    /// than its byte limit.
    pub fn want(&self, num_per_line: usize) -> (r: usize)
        ensures
            self.read_all ==> r == num_per_line,
            !self.read_all ==> r as int == if num_per_line as int <= self.remaining as int {
                num_per_line as int
            } else {
                self.remaining as int
            },
            r <= num_per_line,
            !self.read_all ==> r <= self.remaining,
    {
        if self.read_all {
            num_per_line
        } else if num_per_line < self.remaining {
            num_per_line
        } else {
            self.remaining
        }
    }

    /// Records that the source delivered `n` more bytes: the offset moves
    /// forward and the owed count comes down, both saturating against a
    /// source that over-delivers rather than failing.
    pub fn advance(&mut self, n: usize)
        ensures
            final(self).read_all == old(self).read_all,
            final(self).offset as int == if old(self).offset + n <= usize::MAX {
                old(self).offset + n
            } else {
                usize::MAX as int
            },
            final(self).remaining as int == if n <= old(self).remaining {
                old(self).remaining - n
            } else {
                0
            },
    {
        self.offset = if n <= usize::MAX - self.offset {
            self.offset + n
        } else {
            usize::MAX
        };
        self.remaining = if n <= self.remaining {
            self.remaining - n
        } else {
            0
        };
    }
}

/// Renders a complete dump of `data`: the top border, one data row per
/// chunk — or the single empty row when no byte was taken — and the bottom
/// border. Every chunk holds a full `num_per_line` bytes except possibly
/// the last, and in bounded mode no more than `num_to_read` bytes are
/// taken in all.
pub fn dump(
    data: &[u8],
    read_all: bool,
    num_to_read: usize,
    num_per_line: usize,
    display_offset: usize,
) -> (rows: Vec<String>)
    requires
        num_per_line > 0,
        display_offset + data@.len() <= usize::MAX,
    ensures
        ({
            let w = num_per_line as int;
            let total = total_rendered(data@.len() as int, read_all, num_to_read as int);
            let k = row_count(total, w);
            &&& rows@.len() == if total == 0 {
                3int
            } else {
                k + 2
            }
            &&& rows@[0]@ == top_row(w)
            &&& rows@[rows@.len() - 1]@ == bottom_row(w)
            &&& total == 0 ==> rows@[1]@ == empty_row(display_offset as int, w)
            &&& forall|r: int|
                1 <= r <= k ==> #[trigger] rows@[r]@ == data_row(
                    data@.subrange((r - 1) * w, (r - 1) * w + chunk_len(total, w, r - 1)),
                    chunk_len(total, w, r - 1),
                    display_offset as int + (r - 1) * w,
                    w,
                )
        }),
{
    let ghost w = num_per_line as int;
    let ghost total = total_rendered(data@.len() as int, read_all, num_to_read as int);
    let len = data.len();
    let total_e: usize = if read_all {
        len
    } else if num_to_read <= len {
        num_to_read
    } else {
        len
    };
    assert(total_e as int == total);
    let mut rows: Vec<String> = Vec::new();
    rows.push(top_line(num_per_line));
    let mut pos: usize = 0;
    while pos < total_e
        invariant
            w == num_per_line as int,
            w > 0,
            total == total_rendered(data@.len() as int, read_all, num_to_read as int),
            total_e as int == total,
            total_e <= len,
            len == data@.len(),
            display_offset + data@.len() <= usize::MAX,
            pos <= total_e,
            rows@.len() >= 1,
            rows@[0]@ == top_row(w),
            pos as int == if (rows@.len() - 1) * w <= total {
                (rows@.len() - 1) * w
            } else {
                total
            },
            rows@.len() == 1 ==> pos == 0,
            rows@.len() > 1 ==> (rows@.len() - 2) * w < pos as int,
            forall|r: int|
                1 <= r < rows@.len() ==> #[trigger] rows@[r]@ == data_row(
                    data@.subrange((r - 1) * w, (r - 1) * w + chunk_len(total, w, r - 1)),
                    chunk_len(total, w, r - 1),
                    display_offset as int + (r - 1) * w,
                    w,
                ),
        decreases total_e - pos,
    {
        let ghost j = rows@.len() - 1;
        let n: usize = if num_per_line <= total_e - pos {
            num_per_line
        } else {
            total_e - pos
        };
        proof {
            assert((j + 1) * w == j * w + w) by (nonlinear_arith);
            assert(pos as int == j * w);
            assert(n as int == chunk_len(total, w, j));
        }
        let row = line(&data[pos..pos + n], n, display_offset + pos, num_per_line);
        rows.push(row);
        pos = pos + n;
        proof {
            assert(rows@[j + 1]@ == data_row(
                data@.subrange(j * w, j * w + chunk_len(total, w, j)),
                chunk_len(total, w, j),
                display_offset as int + j * w,
                w,
            ));
        }
    }
    assert(pos == total_e);
    proof {
        let j = rows@.len() - 1;
        let k = row_count(total, w);
        if total == 0 {
            assert(j == 0) by (nonlinear_arith)
                requires
                    w > 0,
                    j >= 0,
                    if j * w <= 0 {
                        j * w == 0
                    } else {
                        true
                    },
                    j > 0 ==> (j - 1) * w < 0,
            ;
        } else {
            assert(j * w >= total);
            assert(j > 0);
            assert((j - 1) * w < total);
            assert(j == (total + w - 1) / w) by (nonlinear_arith)
                requires
                    w > 0,
                    total > 0,
                    j > 0,
                    j * w >= total,
                    (j - 1) * w < total,
            ;
        }
    }
    if pos == 0 {
        rows.push(empty_line(display_offset, num_per_line));
    }
    rows.push(bottom_line(num_per_line));
    rows
}

} // verus!
