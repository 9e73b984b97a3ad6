use vstd::prelude::*;

verus! {

/// `wgpu::COPY_BUFFER_ALIGNMENT`: the alignment, in bytes, of buffer copies.
#[verifier::external_body]
fn copy_buffer_alignment() -> (result: u64)
    ensures
        result == 4,
{
    wgpu::COPY_BUFFER_ALIGNMENT
}

/// `n` rounded up to a multiple of `m`.
pub open spec fn round_up(n: int, m: int) -> int {
    ((n + m - 1) / m) * m
}

/// `n` divided by `d`, rounded up.
pub open spec fn ceil_div(n: int, d: int) -> int {
    (n + d - 1) / d
}

/// The size of a buffer for `bytes` bytes of content: the content rounded up to
/// the copy alignment, and never less than one alignment unit.
pub open spec fn padded_size(bytes: int) -> int {
    if round_up(bytes, 4) < 4 {
        4
    } else {
        round_up(bytes, 4)
    }
}

/// Calculates the size to create a wgpu::Buffer with correct padding
pub fn get_padded_buffer_size<T>(size: usize) -> (result: u64)
    requires
        size * vstd::layout::size_of::<T>() <= usize::MAX,
        size * vstd::layout::size_of::<T>() + 3 <= u64::MAX,
    ensures
        result == padded_size(size * vstd::layout::size_of::<T>()),
{
    // Modified from .create_buffer_init()'s logic
    let alignment = copy_buffer_alignment();
    let align_mask = alignment - 1;
    let bytes = size * std::mem::size_of::<T>();
    let n = bytes as u64 + align_mask;
    let rounded = n & !align_mask;
    assert(rounded == (n / 4) * 4) by (bit_vector)
        requires
            align_mask == 3u64,
            rounded == n & !align_mask,
    ;
    if rounded < alignment {
        alignment
    } else {
        rounded
    }
}

/// Width and height are the texture width and height
/// Workgroup width and height are from @compute @workgroup_size(X,Y) in WGSL
pub fn compute_texture_work_group_count(size: (u32, u32), workgroup: (u32, u32)) -> (result: (
    u32,
    u32,
))
    requires
        workgroup.0 > 0,
        workgroup.1 > 0,
        size.0 + workgroup.0 <= u32::MAX,
        size.1 + workgroup.1 <= u32::MAX,
    ensures
        result.0 == ceil_div(size.0 as int, workgroup.0 as int),
        result.1 == ceil_div(size.1 as int, workgroup.1 as int),
{
    let (width, height) = size;
    let (workgroup_width, workgroup_height) = workgroup;
    let x = (width + workgroup_width - 1) / workgroup_width;
    let y = (height + workgroup_height - 1) / workgroup_height;
    (x, y)
}

/// Enough groups of `group_size` to cover `items`, cut to 32 bits as a dispatch
/// size is (`items.div_ceil(group_size) as u32`).
pub fn dispatch_count(items: usize, group_size: usize) -> (result: u32)
    requires
        group_size > 0,
    ensures
        result == #[verifier::truncate] (ceil_div(items as int, group_size as int) as u32),
{
    let whole = items / group_size;
    let rest = items % group_size;
    assert(rest != 0 ==> whole < usize::MAX) by (nonlinear_arith)
        requires
            group_size > 0,
            whole == items / group_size,
            rest == items % group_size,
            items <= usize::MAX,
    ;
    let groups = if rest != 0 {
        whole + 1
    } else {
        whole
    };
    proof {
        assert(groups == ceil_div(items as int, group_size as int)) by (nonlinear_arith)
            requires
                group_size > 0,
                whole == items / group_size,
                rest == items % group_size,
                groups == if rest != 0 {
                    whole + 1
                } else {
                    whole as int
                },
        ;
    }
    #[verifier::truncate] (groups as u32)
}

/// Entries of one of the four intermediate pixel score buffers: each holds a
/// quarter of the candidates, rounded up, for every pixel of the canvas.
pub fn pixel_score_entries(candidates: usize, width: u32, height: u32) -> (result: usize)
    requires
        ceil_div(candidates as int, 4) * width <= usize::MAX,
        ceil_div(candidates as int, 4) * width * height <= usize::MAX,
    ensures
        result == ceil_div(candidates as int, 4) * width * height,
{
    let quarter = candidates / 4 + if candidates % 4 != 0 {
        1
    } else {
        0
    };
    assert(quarter == ceil_div(candidates as int, 4));
    quarter * (width as usize) * (height as usize)
}

/// The layout of a texture copied back to the CPU: four bytes per pixel, rows
/// padded to the 256 bytes wgpu requires.
pub struct ReadbackLayout {
    pub unpadded_bytes_per_row: u32,
    pub padded_bytes_per_row: u32,
    /// `padded_bytes_per_row * height`
    pub buffer_size: u64,
}

/// The readback layout of a `width` by `height` texture.
pub fn readback_layout(width: u32, height: u32) -> (result: ReadbackLayout)
    requires
        round_up(4 * width, 256) * height <= u32::MAX,
        4 * width + 255 <= u32::MAX,
    ensures
        result.unpadded_bytes_per_row == 4 * width,
        result.padded_bytes_per_row == round_up(4 * width, 256),
        result.buffer_size == round_up(4 * width, 256) * height,
{
    let bytes_per_pixel: u32 = 4;
    let unpadded_bytes_per_row = width * bytes_per_pixel;
    // wgpu requires rows to be aligned to 256 bytes
    let n = unpadded_bytes_per_row + 255;
    let padded_bytes_per_row = n & !255u32;
    assert(padded_bytes_per_row == (n / 256) * 256) by (bit_vector)
        requires
            padded_bytes_per_row == n & !255u32,
    ;
    let buffer_size = (padded_bytes_per_row * height) as u64;
    ReadbackLayout { unpadded_bytes_per_row, padded_bytes_per_row, buffer_size }
}

/// The first `row_len` bytes of each of the first `rows` chunks of `chunk` bytes
/// of `data`, one after the other.
pub open spec fn row_prefixes(data: Seq<u8>, chunk: int, row_len: int, rows: nat) -> Seq<u8>
    decreases rows,
{
    if rows == 0 {
        Seq::empty()
    } else {
        row_prefixes(data, chunk, row_len, (rows - 1) as nat) + data.subrange(
            (rows - 1) * chunk,
            (rows - 1) * chunk + row_len,
        )
    }
}

/// Cutting `len` bytes into chunks of `chunk` leaves every chunk, the last and
/// possibly shorter one included, at least `row_len` long.
pub open spec fn chunks_hold_rows(len: int, chunk: int, row_len: int) -> bool {
    len == 0 || (row_len <= chunk && (len % chunk == 0 || len % chunk >= row_len))
}

/// Remove row padding: keeps the first `unpadded_bytes_per_row` bytes of every
/// `padded_bytes_per_row`-byte row of a texture read back from the GPU.
pub fn remove_row_padding(data: &[u8], width: u32, height: u32, layout: &ReadbackLayout) -> (result:
    Vec<u8>)
    requires
        layout.padded_bytes_per_row > 0,
        width * height * 4 <= u32::MAX,
        chunks_hold_rows(
            data@.len() as int,
            layout.padded_bytes_per_row as int,
            layout.unpadded_bytes_per_row as int,
        ),
    ensures
        result@ == row_prefixes(
            data@,
            layout.padded_bytes_per_row as int,
            layout.unpadded_bytes_per_row as int,
            ceil_div(data@.len() as int, layout.padded_bytes_per_row as int) as nat,
        ),
{
    let p = layout.padded_bytes_per_row as usize;
    let u = layout.unpadded_bytes_per_row as usize;
    let len = data.len();
    let mut pixels: Vec<u8> = Vec::with_capacity((width * height * 4) as usize);
    let mut start: usize = 0;
    let ghost mut rows: nat = 0;
    while start < len
        invariant
            p > 0,
            len == data@.len(),
            chunks_hold_rows(len as int, p as int, u as int),
            start < len ==> start == rows * p,
            start == len ==> rows * p >= len,
            start <= len,
            rows == 0 || (rows - 1) * p < len,
            pixels@ == row_prefixes(data@, p as int, u as int, rows),
        decreases len - start,
    {
        proof {
            assert(start + u <= len) by (nonlinear_arith)
                requires
                    p > 0,
                    start == rows * p,
                    start < len,
                    u <= p,
                    len % p == 0 || len % p >= u,
            {
                if len - start < p {
                    vstd::arithmetic::div_mod::lemma_fundamental_div_mod_converse(
                        len as int,
                        p as int,
                        rows as int,
                        (len - start) as int,
                    );
                }
            }
        }
        let mut k: usize = 0;
        while k < u
            invariant
                k <= u,
                start + u <= len,
                len == data@.len(),
                pixels@ == row_prefixes(data@, p as int, u as int, rows) + data@.subrange(
                    start as int,
                    start + k,
                ),
            decreases u - k,
        {
            pixels.push(data[start + k]);
            proof {
                assert(data@.subrange(start as int, start + k + 1) =~= data@.subrange(
                    start as int,
                    start + k,
                ).push(data@[start + k]));
            }
            k = k + 1;
        }
        proof {
            assert(row_prefixes(data@, p as int, u as int, rows + 1) == row_prefixes(
                data@,
                p as int,
                u as int,
                rows,
            ) + data@.subrange(rows * p, rows * p + u));
            rows = rows + 1;
            assert(rows * p == start + p) by (nonlinear_arith)
                requires
                    rows == (rows - 1) + 1,
                    start == (rows - 1) * p,
            ;
        }
        if len - start <= p {
            start = len;
        } else {
            start = start + p;
        }
    }
    proof {
        assert(rows == ceil_div(len as int, p as int)) by (nonlinear_arith)
            requires
                p > 0,
                rows * p >= len,
                rows == 0 || (rows - 1) * p < len,
        {
            if rows == 0 {
                assert(len == 0);
            }
        }
    }
    pixels
}

/// A padded buffer size is a whole number of alignment units, holds the
/// content, and wastes less than one unit on it.
pub proof fn lemma_padded_size(bytes: int)
    requires
        bytes >= 0,
    ensures
        padded_size(bytes) % 4 == 0,
        padded_size(bytes) >= 4,
        padded_size(bytes) >= bytes,
        bytes > 0 ==> padded_size(bytes) < bytes + 4,
{
    assert(round_up(bytes, 4) % 4 == 0 && round_up(bytes, 4) >= bytes && round_up(bytes, 4)
        < bytes + 4) by (nonlinear_arith)
        requires
            bytes >= 0,
    {
        vstd::arithmetic::div_mod::lemma_fundamental_div_mod(bytes + 3, 4);
        vstd::arithmetic::div_mod::lemma_mod_multiples_basic((bytes + 3) / 4, 4);
    }
}

/// The work groups cover the texture, and one group fewer would not.
pub proof fn lemma_work_groups_cover(size: int, group: int)
    requires
        size >= 0,
        group > 0,
    ensures
        ceil_div(size, group) * group >= size,
        (ceil_div(size, group) - 1) * group < size || size == 0,
{
    assert(ceil_div(size, group) * group >= size && ((ceil_div(size, group) - 1) * group < size
        || size == 0)) by (nonlinear_arith)
        requires
            size >= 0,
            group > 0,
    {
        vstd::arithmetic::div_mod::lemma_fundamental_div_mod(size + group - 1, group);
        vstd::arithmetic::div_mod::lemma_mod_bound(size + group - 1, group);
    }
}

/// A padded row holds the unpadded row, is a multiple of 256 bytes, and pads by
/// less than 256 bytes.
pub proof fn lemma_padded_row(bytes: int)
    requires
        bytes >= 0,
    ensures
        round_up(bytes, 256) % 256 == 0,
        bytes <= round_up(bytes, 256) < bytes + 256,
{
    assert(round_up(bytes, 256) % 256 == 0 && bytes <= round_up(bytes, 256) < bytes + 256)
        by (nonlinear_arith)
        requires
            bytes >= 0,
    {
        vstd::arithmetic::div_mod::lemma_fundamental_div_mod(bytes + 255, 256);
        vstd::arithmetic::div_mod::lemma_mod_multiples_basic((bytes + 255) / 256, 256);
    }
}

/// Removing the padding leaves exactly `rows` rows of `row_len` bytes.
pub proof fn lemma_row_prefixes_len(data: Seq<u8>, chunk: int, row_len: int, rows: nat)
    requires
        chunk > 0,
        0 <= row_len <= chunk,
        rows * chunk <= data.len() + chunk - row_len,
    ensures
        row_prefixes(data, chunk, row_len, rows).len() == rows * row_len,
    decreases rows,
{
    if rows > 0 {
        assert((rows - 1) * chunk == rows * chunk - chunk) by (nonlinear_arith);
        assert((rows - 1) * row_len == rows * row_len - row_len) by (nonlinear_arith);
        assert((rows - 1) * chunk >= 0) by (nonlinear_arith)
            requires
                rows >= 1,
                chunk > 0,
        ;
        lemma_row_prefixes_len(data, chunk, row_len, (rows - 1) as nat);
        let a = (rows - 1) * chunk;
        assert(a + row_len <= data.len());
        assert(data.subrange(a, a + row_len).len() == row_len);
        assert(row_prefixes(data, chunk, row_len, rows) == row_prefixes(
            data,
            chunk,
            row_len,
            (rows - 1) as nat,
        ) + data.subrange(a, a + row_len));
        assert(row_prefixes(data, chunk, row_len, rows).len() == (rows - 1) * row_len + row_len);
    } else {
        assert(row_prefixes(data, chunk, row_len, rows).len() == 0);
    }
}

} // verus!
