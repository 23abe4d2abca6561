//! The shared region exposed by the console device: a fixed header followed
//! by a row-major table of two-byte cells, and the payloads of the control
//! commands that drive the device.
use vstd::prelude::*;

verus! {

/// Size in bytes of the header at the start of the shared region.
pub const HEADER_SIZE: u64 = 48;

/// Size in bytes of one cell of the table that follows the header.
pub const CELL_SIZE: u64 = 2;

/// Largest payload of one input command.
pub const INPUT_CHUNK: usize = 256;

/// Bit of the header's flags that makes the cursor visible.
pub const FLAG_CURSOR_VISIBLE: u32 = 1;

/// `n` rounded up to the next multiple of `p`.
pub open spec fn round_up(n: int, p: int) -> int {
    ((n + p - 1) / p) * p
}

/// Bytes used by the header and a `rows` x `cols` cell table.
pub open spec fn region_bytes(rows: int, cols: int) -> int {
    HEADER_SIZE + rows * cols * CELL_SIZE
}

proof fn lemma_round_up(n: int, p: int)
    requires
        n >= 0,
        p > 0,
    ensures
        round_up(n, p) % p == 0,
        n <= round_up(n, p) < n + p,
{
    let q = (n + p - 1) / p;
    vstd::arithmetic::div_mod::lemma_fundamental_div_mod(n + p - 1, p);
    vstd::arithmetic::div_mod::lemma_mod_multiples_basic(q, p);
    assert(q * p == p * q) by (nonlinear_arith);
}

/// Size of the mapping of a `rows` x `cols` console: the header and the cell
/// table together, rounded up to a whole number of pages.
pub fn mapping_size(rows: u16, cols: u16, page_size: u64) -> (r: u64)
    requires
        0 < page_size <= u32::MAX,
    ensures
        r == round_up(region_bytes(rows as int, cols as int), page_size as int),
        r % page_size == 0,
        region_bytes(rows as int, cols as int) <= r < region_bytes(rows as int, cols as int)
            + page_size,
{
    assert((rows as int) * (cols as int) <= 0xffff * 0xffff) by (nonlinear_arith)
        requires
            rows <= 0xffff,
            cols <= 0xffff,
    ;
    let cells: u64 = (rows as u64) * (cols as u64);
    let total: u64 = HEADER_SIZE + cells * CELL_SIZE;
    proof {
        lemma_round_up(total as int, page_size as int);
    }
    let pages: u64 = (total + page_size - 1) / page_size;
    pages * page_size
}

/// The header at the start of the shared region, as the device lays it out:
/// native little-endian integers with no padding but the reserved tail.
#[derive(Clone, Copy)]
pub struct ExconHeader {
    pub rows: u16,
    pub cols: u16,
    pub cursor_row: u16,
    pub cursor_col: u16,
    pub flags: u32,
    pub fg_color: u32,
    pub bg_color: u32,
    pub dirty_seq: u32,
    pub scroll_offset: u32,
    pub scroll_lines: u32,
    pub _pad: [u8; 16],
}

/// Number of input commands needed for `n` bytes.
pub open spec fn chunk_count(n: int) -> int {
    (n + 255) / 256
}

/// `c` is the `k`-th input command for `data`: the next at most 256 bytes,
/// zero-filled behind them.
pub open spec fn is_chunk(c: ExconInputT, data: Seq<u8>, k: int) -> bool {
    let start = 256 * k;
    let len = if data.len() - start < 256 { data.len() - start } else { 256 };
    &&& c.len == len
    &&& forall|j: int| 0 <= j < len ==> c.data@[j] == data[start + j]
    &&& forall|j: int| len <= j < 256 ==> c.data@[j] == 0
}

/// The input commands that deliver `data` to the device, in the order in
/// which they must be sent: one per 256 bytes, the last one shorter.
pub fn input_commands(data: &[u8]) -> (r: Vec<ExconInputT>)
    ensures
        r@.len() == chunk_count(data@.len() as int),
        forall|k: int| 0 <= k < r@.len() ==> is_chunk(#[trigger] r@[k], data@, k),
{
    let n: usize = data.len();
    let mut out: Vec<ExconInputT> = Vec::new();
    let mut start: usize = 0;
    while start < n
        invariant
            n == data@.len(),
            start <= n,
            start == (if 256 * out@.len() < n { 256 * out@.len() as int } else { n as int }),
            out@.len() <= chunk_count(n as int),
            start < n ==> out@.len() < chunk_count(n as int),
            start == n ==> out@.len() == chunk_count(n as int),
            forall|k: int| 0 <= k < out@.len() ==> is_chunk(#[trigger] out@[k], data@, k),
        decreases n - start,
    {
        let len: usize = if n - start < INPUT_CHUNK { n - start } else { INPUT_CHUNK };
        let mut buf: [u8; 256] = [0u8; 256];
        let mut j: usize = 0;
        while j < len
            invariant
                n == data@.len(),
                len <= 256,
                start + len <= n,
                j <= len,
                forall|i: int| 0 <= i < j ==> buf@[i] == data@[start + i],
                forall|i: int| len <= i < 256 ==> buf@[i] == 0,
            decreases len - j,
        {
            buf[j] = data[start + j];
            j = j + 1;
        }
        let cmd = ExconInputT { len: len as u32, data: buf };
        assert(is_chunk(cmd, data@, out@.len() as int));
        out.push(cmd);
        start = start + len;
    }
    out
}

/// One grid position: a character code and its packed attribute byte.
#[derive(Clone, Copy, PartialEq, Eq, Structural)]
pub struct ExconCell {
    pub ch: u8,
    pub attr: u8,
}

/// Payload of the command that creates a console of the given size.
pub struct ExconCreateT {
    pub rows: u16,
    pub cols: u16,
}

/// Payload of one input command: `len` bytes at the start of `data`.
pub struct ExconInputT {
    pub len: u32,
    pub data: [u8; 256],
}

/// Why the device could not be attached or a command failed.
#[derive(Clone, Copy, PartialEq, Eq, Structural, Debug)]
pub enum DeviceError {
    NotFound,
    PermissionDenied,
    ProtocolError,
    IoError,
}

pub const EPERM: i32 = 1;
pub const ENOENT: i32 = 2;
pub const ENXIO: i32 = 6;
pub const EACCES: i32 = 13;
pub const ENODEV: i32 = 19;
pub const EINVAL: i32 = 22;

/// The error that an operating-system error number stands for.
pub open spec fn error_of_errno(errno: int) -> DeviceError {
    if errno == ENOENT || errno == ENXIO || errno == ENODEV {
        DeviceError::NotFound
    } else if errno == EPERM || errno == EACCES {
        DeviceError::PermissionDenied
    } else if errno == EINVAL {
        DeviceError::ProtocolError
    } else {
        DeviceError::IoError
    }
}

impl DeviceError {
    /// Classifies an operating-system error number.
    pub fn from_errno(errno: i32) -> (r: DeviceError)
        ensures
            r == error_of_errno(errno as int),
    {
        if errno == ENOENT || errno == ENXIO || errno == ENODEV {
            DeviceError::NotFound
        } else if errno == EPERM || errno == EACCES {
            DeviceError::PermissionDenied
        } else if errno == EINVAL {
            DeviceError::ProtocolError
        } else {
            DeviceError::IoError
        }
    }
}

/// Little-endian 16-bit value at offset `o`.
pub open spec fn u16_at(b: Seq<u8>, o: int) -> int {
    b[o] + 256 * b[o + 1]
}

/// Little-endian 32-bit value at offset `o`.
pub open spec fn u32_at(b: Seq<u8>, o: int) -> int {
    u16_at(b, o) + 65536 * u16_at(b, o + 2)
}

/// `h` is the header that the first `HEADER_SIZE` bytes of `b` encode.
pub open spec fn decodes_header(b: Seq<u8>, h: ExconHeader) -> bool {
    &&& h.rows == u16_at(b, 0)
    &&& h.cols == u16_at(b, 2)
    &&& h.cursor_row == u16_at(b, 4)
    &&& h.cursor_col == u16_at(b, 6)
    &&& h.flags == u32_at(b, 8)
    &&& h.fg_color == u32_at(b, 12)
    &&& h.bg_color == u32_at(b, 16)
    &&& h.dirty_seq == u32_at(b, 20)
    &&& h.scroll_offset == u32_at(b, 24)
    &&& h.scroll_lines == u32_at(b, 28)
    &&& h._pad@ == b.subrange(32, 48)
}

fn read_u16(b: &Vec<u8>, o: usize) -> (r: u16)
    requires
        o <= 64,
        o + 2 <= b@.len(),
    ensures
        r == u16_at(b@, o as int),
{
    (b[o] as u16) + (b[o + 1] as u16) * 256
}

fn read_u32(b: &Vec<u8>, o: usize) -> (r: u32)
    requires
        o <= 60,
        o + 4 <= b@.len(),
    ensures
        r == u32_at(b@, o as int),
{
    (read_u16(b, o) as u32) + (read_u16(b, o + 2) as u32) * 65536
}

/// Offset of the cell at (`row`, `col`) in a region whose table has `cols`
/// cells per row.
pub open spec fn cell_offset(cols: int, row: int, col: int) -> int {
    HEADER_SIZE + (row * cols + col) * CELL_SIZE
}

/// The cell stored at (`row`, `col`).
pub open spec fn cell_in(b: Seq<u8>, cols: int, row: int, col: int) -> ExconCell {
    ExconCell { ch: b[cell_offset(cols, row, col)], attr: b[cell_offset(cols, row, col) + 1] }
}

proof fn lemma_cell_in_table(rows: int, cols: int, row: int, col: int)
    requires
        0 <= row < rows,
        0 <= col < cols,
    ensures
        0 <= row * cols + col,
        (row * cols + col) + 1 <= rows * cols,
{
    assert(0 <= row * cols) by (nonlinear_arith)
        requires
            0 <= row,
            0 <= cols,
    ;
    assert((row + 1) * cols <= rows * cols) by (nonlinear_arith)
        requires
            row + 1 <= rows,
            0 <= cols,
    ;
    assert((row + 1) * cols == row * cols + cols) by (nonlinear_arith);
}

/// A copy of the shared region of a console with `rows` x `cols` cells.
/// Reads go through bounds-checked accessors that copy values out.
pub struct KernelConsole {
    pub rows: u16,
    pub cols: u16,
    pub mem: Vec<u8>,
}

impl KernelConsole {
    /// The region holds the header and the whole configured cell table.
    pub open spec fn wf(&self) -> bool {
        self.mem@.len() >= region_bytes(self.rows as int, self.cols as int)
    }

    /// A view of `mem` as the region of a `rows` x `cols` console; `None`
    /// when `mem` is too short to hold the header and every cell.
    pub fn from_mapping(rows: u16, cols: u16, mem: Vec<u8>) -> (r: Option<KernelConsole>)
        ensures
            mem@.len() >= region_bytes(rows as int, cols as int) <==> r is Some,
            r matches Some(c) ==> c.rows == rows && c.cols == cols && c.mem@ == mem@ && c.wf(),
    {
        assert((rows as int) * (cols as int) <= 0xffff * 0xffff) by (nonlinear_arith)
            requires
                rows <= 0xffff,
                cols <= 0xffff,
        ;
        let need: u64 = HEADER_SIZE + (rows as u64) * (cols as u64) * CELL_SIZE;
        if (mem.len() as u64) < need {
            None
        } else {
            Some(KernelConsole { rows, cols, mem })
        }
    }

    /// Copies the header out of the region.
    pub fn header(&self) -> (r: ExconHeader)
        requires
            self.wf(),
        ensures
            decodes_header(self.mem@, r),
    {
        let b = &self.mem;
        let mut pad: [u8; 16] = [0u8; 16];
        let mut i: usize = 0;
        while i < 16
            invariant
                i <= 16,
                b@.len() >= HEADER_SIZE,
                forall|j: int| 0 <= j < i ==> pad@[j] == b@[32 + j],
            decreases 16 - i,
        {
            pad[i] = b[32 + i];
            i = i + 1;
        }
        assert(pad@ =~= b@.subrange(32, 48));
        ExconHeader {
            rows: read_u16(b, 0),
            cols: read_u16(b, 2),
            cursor_row: read_u16(b, 4),
            cursor_col: read_u16(b, 6),
            flags: read_u32(b, 8),
            fg_color: read_u32(b, 12),
            bg_color: read_u32(b, 16),
            dirty_seq: read_u32(b, 20),
            scroll_offset: read_u32(b, 24),
            scroll_lines: read_u32(b, 28),
            _pad: pad,
        }
    }

    /// Copies out the cell at (`row`, `col`). A position outside the
    /// configured grid is refused with `None`; nothing is read then.
    pub fn cell(&self, row: u16, col: u16) -> (r: Option<ExconCell>)
        requires
            self.wf(),
        ensures
            r == (if row < self.rows && col < self.cols {
                Some(cell_in(self.mem@, self.cols as int, row as int, col as int))
            } else {
                None
            }),
    {
        if row >= self.rows || col >= self.cols {
            return None;
        }
        proof {
            lemma_cell_in_table(self.rows as int, self.cols as int, row as int, col as int);
        }
        assert((row as int) * (self.cols as int) <= 0xffff * 0xffff) by (nonlinear_arith)
            requires
                row <= 0xffff,
                self.cols <= 0xffff,
        ;
        let len: usize = self.mem.len();
        let idx: u64 = (row as u64) * (self.cols as u64) + (col as u64);
        let off: u64 = HEADER_SIZE + idx * CELL_SIZE;
        assert(off + 1 < len);
        let o: usize = off as usize;
        Some(ExconCell { ch: self.mem[o], attr: self.mem[o + 1] })
    }
}

} // verus!
