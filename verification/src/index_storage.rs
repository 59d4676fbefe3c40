//! Storage of an index's summary: one record per indexed column, kept as a length-prefixed
//! blob in the index's metapage (block 0). A summary only ever has to be over-inclusive, so
//! a page is updated in place, without versions.

use vstd::prelude::*;
use vstd::utf8::{decode_utf8, encode_utf8, valid_utf8};
use crate::text::{push_signed, signed_decimal};

verus! {

/// One column's summary, as stored in the index metapage and used by the planner.
#[derive(Clone, Debug, PartialEq)]
pub struct ColSummary {
    /// Heap attribute number the summary is for.
    pub attnum: i16,
    /// `true`: `min` holds a covering extent for `&&` pruning (range types, geometry);
    /// `false`: `min` and `max` hold the column's btree minimum and maximum.
    pub overlap: bool,
    /// SQL type name, for the casts of the overlap test.
    pub sql_type: String,
    pub min: Option<String>,
    pub max: Option<String>,
    pub has_nulls: bool,
    pub all_nulls: bool,
}

/// The whole index's summary: one entry per indexed column.
#[derive(Clone, Debug, PartialEq)]
pub struct IndexSummary {
    pub cols: Vec<ColSummary>,
}

impl Default for IndexSummary {
    fn default() -> (r: Self)
        ensures
            r@ == Seq::<ColModel>::empty(),
    {
        let r = IndexSummary { cols: Vec::new() };
        assert(r@ =~= Seq::<ColModel>::empty());
        r
    }
}

/// What a [`ColSummary`] says, with its texts as character sequences.
#[verifier::ext_equal]
pub struct ColModel {
    pub attnum: i16,
    pub overlap: bool,
    pub sql_type: Seq<char>,
    pub min: Option<Seq<char>>,
    pub max: Option<Seq<char>>,
    pub has_nulls: bool,
    pub all_nulls: bool,
}

/// The characters of an optional text.
pub open spec fn opt_text(s: Option<String>) -> Option<Seq<char>> {
    match s {
        Some(t) => Some(t@),
        None => None,
    }
}

impl View for ColSummary {
    type V = ColModel;

    open spec fn view(&self) -> ColModel {
        ColModel {
            attnum: self.attnum,
            overlap: self.overlap,
            sql_type: self.sql_type@,
            min: opt_text(self.min),
            max: opt_text(self.max),
            has_nulls: self.has_nulls,
            all_nulls: self.all_nulls,
        }
    }
}

/// The columns of a summary as models.
pub open spec fn col_models(cols: Seq<ColSummary>) -> Seq<ColModel> {
    Seq::new(cols.len(), |i: int| cols[i]@)
}

impl View for IndexSummary {
    type V = Seq<ColModel>;

    open spec fn view(&self) -> Seq<ColModel> {
        col_models(self.cols@)
    }
}

/// The format version every summary blob starts with.
pub const SUMMARY_VERSION: u8 = 1;

// ---- the stored form -------------------------------------------------------------

/// A 16-bit little-endian field; only the low sixteen bits of `n` are kept.
pub open spec fn u16_bytes(n: int) -> Seq<u8> {
    seq![(n % 256) as u8, (n / 256 % 256) as u8]
}

/// A text field: its length in bytes, then its UTF-8 bytes.
pub open spec fn text_bytes(s: Seq<char>) -> Seq<u8> {
    u16_bytes(encode_utf8(s).len() as int) + encode_utf8(s)
}

/// An optional text field: a presence byte, then the text where there is one.
pub open spec fn opt_text_bytes(s: Option<Seq<char>>) -> Seq<u8> {
    match s {
        Some(t) => seq![1u8] + text_bytes(t),
        None => seq![0u8],
    }
}

pub open spec fn flag(b: bool, weight: int) -> int {
    if b {
        weight
    } else {
        0
    }
}

/// One column's record.
pub open spec fn col_bytes(c: ColModel) -> Seq<u8> {
    u16_bytes(c.attnum as int) + seq![
        flag(c.overlap, 1) as u8,
        (flag(c.has_nulls, 1) + flag(c.all_nulls, 2)) as u8,
    ] + text_bytes(c.sql_type) + opt_text_bytes(c.min) + opt_text_bytes(c.max)
}

/// The records of all columns, in order.
pub open spec fn cols_bytes(cols: Seq<ColModel>) -> Seq<u8>
    decreases cols.len(),
{
    if cols.len() == 0 {
        Seq::empty()
    } else {
        cols_bytes(cols.drop_last()) + col_bytes(cols.last())
    }
}

/// The blob of a summary.
pub open spec fn summary_bytes(s: Seq<ColModel>) -> Seq<u8> {
    seq![SUMMARY_VERSION] + u16_bytes(s.len() as int) + cols_bytes(s)
}

// ---- writing ---------------------------------------------------------------------

fn push_all(out: &mut Vec<u8>, bytes: &[u8])
    ensures
        final(out)@ == old(out)@ + bytes@,
{
    out.extend_from_slice(bytes);
    assert(out@ =~= old(out)@ + bytes@);
}

/// Appends the low sixteen bits of `n`, low byte first.
fn put_u16(out: &mut Vec<u8>, n: usize)
    ensures
        final(out)@ == old(out)@ + u16_bytes(n as int),
{
    out.push((n % 256) as u8);
    out.push((n / 256 % 256) as u8);
    assert(out@ =~= old(out)@ + u16_bytes(n as int));
}

/// Appends a text field. A text longer than 65535 bytes is written whole under a length
/// that keeps only the low sixteen bits.
pub fn put_str(out: &mut Vec<u8>, s: &str)
    ensures
        final(out)@ == old(out)@ + text_bytes(s@),
{
    let bytes = s.as_bytes();
    put_u16(out, bytes.len());
    push_all(out, bytes);
    assert(out@ =~= old(out)@ + text_bytes(s@));
}

/// Appends an optional text field.
pub fn put_opt_str(out: &mut Vec<u8>, s: &Option<String>)
    ensures
        final(out)@ == old(out)@ + opt_text_bytes(opt_text(*s)),
{
    match s {
        Some(t) => {
            out.push(1);
            put_str(out, t);
            assert(out@ =~= old(out)@ + opt_text_bytes(opt_text(*s)));
        },
        None => {
            out.push(0);
            assert(out@ =~= old(out)@ + opt_text_bytes(opt_text(*s)));
        },
    }
}

fn put_col(out: &mut Vec<u8>, c: &ColSummary)
    ensures
        final(out)@ == old(out)@ + col_bytes(c@),
{
    let attnum: i32 = c.attnum as i32;
    let low: i32 = if attnum < 0 {
        attnum + 65536
    } else {
        attnum
    };
    put_u16(out, low as usize);
    let overlap: u8 = if c.overlap {
        1
    } else {
        0
    };
    out.push(overlap);
    let has: u8 = if c.has_nulls {
        1
    } else {
        0
    };
    let all: u8 = if c.all_nulls {
        2
    } else {
        0
    };
    out.push(has + all);
    put_str(out, &c.sql_type);
    put_opt_str(out, &c.min);
    put_opt_str(out, &c.max);
    assert(u16_bytes(low as int) =~= u16_bytes(c.attnum as int));
    assert(out@ =~= old(out)@ + col_bytes(c@));
}

/// The blob that stores `summary`.
pub fn serialize(summary: &IndexSummary) -> (r: Vec<u8>)
    ensures
        r@ == summary_bytes(summary@),
{
    let mut out: Vec<u8> = Vec::new();
    out.push(SUMMARY_VERSION);
    put_u16(&mut out, summary.cols.len());
    let mut i: usize = 0;
    assert(summary@.take(0) =~= Seq::<ColModel>::empty());
    while i < summary.cols.len()
        invariant
            0 <= i <= summary.cols@.len(),
            out@ == seq![SUMMARY_VERSION] + u16_bytes(summary@.len() as int) + cols_bytes(
                summary@.take(i as int),
            ),
        decreases summary.cols@.len() - i,
    {
        put_col(&mut out, &summary.cols[i]);
        assert(summary@.take(i + 1).drop_last() =~= summary@.take(i as int));
        assert(summary@.take(i + 1).last() == summary.cols@[i as int]@);
        i += 1;
        assert(out@ =~= seq![SUMMARY_VERSION] + u16_bytes(summary@.len() as int) + cols_bytes(
            summary@.take(i as int),
        ));
    }
    assert(summary@.take(summary@.len() as int) =~= summary@);
    out
}

// ---- reading ---------------------------------------------------------------------

pub open spec fn read_byte(b: Seq<u8>, pos: int) -> Option<(u8, int)> {
    if 0 <= pos < b.len() {
        Some((b[pos], pos + 1))
    } else {
        None
    }
}

pub open spec fn read_number(b: Seq<u8>, pos: int) -> Option<(int, int)> {
    if 0 <= pos && pos + 2 <= b.len() {
        Some((b[pos] + 256 * b[pos + 1], pos + 2))
    } else {
        None
    }
}

/// A text field read at `pos`: it must lie within the buffer and be UTF-8.
pub open spec fn read_text(b: Seq<u8>, pos: int) -> Option<(Seq<char>, int)> {
    match read_number(b, pos) {
        Some((n, start)) => if start + n <= b.len() && valid_utf8(b.subrange(start, start + n)) {
            Some((decode_utf8(b.subrange(start, start + n)), start + n))
        } else {
            None
        },
        None => None,
    }
}

/// An optional text field read at `pos`; every presence byte but zero means a text follows.
pub open spec fn read_opt_text(b: Seq<u8>, pos: int) -> Option<(Option<Seq<char>>, int)> {
    match read_byte(b, pos) {
        Some((0, next)) => Some((None, next)),
        Some((_, next)) => match read_text(b, next) {
            Some((t, end)) => Some((Some(t), end)),
            None => None,
        },
        None => None,
    }
}

/// The number a 16-bit field stands for when it is read as a signed one.
pub open spec fn as_signed(n: int) -> i16 {
    if n >= 32768 {
        (n - 65536) as i16
    } else {
        n as i16
    }
}

/// One column's record read at `pos`.
pub open spec fn read_col(b: Seq<u8>, pos: int) -> Option<(ColModel, int)> {
    match read_number(b, pos) {
        None => None,
        Some((attnum, p1)) => match (read_byte(b, p1), read_byte(b, p1 + 1)) {
            (Some((overlap, _)), Some((flags, p2))) => match read_text(b, p2) {
                None => None,
                Some((sql_type, p3)) => match read_opt_text(b, p3) {
                    None => None,
                    Some((min, p4)) => match read_opt_text(b, p4) {
                        None => None,
                        Some((max, p5)) => Some(
                            (
                                ColModel {
                                    attnum: as_signed(attnum),
                                    overlap: overlap != 0,
                                    sql_type,
                                    min,
                                    max,
                                    has_nulls: flags % 2 == 1,
                                    all_nulls: flags / 2 % 2 == 1,
                                },
                                p5,
                            ),
                        ),
                    },
                },
            },
            _ => None,
        },
    }
}

/// The first `n` column records from `pos` on.
pub open spec fn read_cols(b: Seq<u8>, pos: int, n: nat) -> Option<(Seq<ColModel>, int)>
    decreases n,
{
    if n == 0 {
        Some((Seq::empty(), pos))
    } else {
        match read_cols(b, pos, (n - 1) as nat) {
            Some((cols, p)) => match read_col(b, p) {
                Some((c, end)) => Some((cols.push(c), end)),
                None => None,
            },
            None => None,
        }
    }
}

/// The summary a blob holds, where it holds one. What follows the last record is ignored.
pub open spec fn parse_summary(b: Seq<u8>) -> Option<Seq<ColModel>> {
    match (read_byte(b, 0), read_number(b, 1)) {
        (Some((version, _)), Some((n, pos))) => if version == SUMMARY_VERSION {
            match read_cols(b, pos, n as nat) {
                Some((cols, _)) => Some(cols),
                None => None,
            }
        } else {
            None
        },
        _ => None,
    }
}

/// `String::from_utf8` on a copy of `bytes`: the text that the bytes encode, or nothing
/// where they are not UTF-8.
#[verifier::external_body]
fn utf8_text(bytes: &[u8]) -> (r: Option<String>)
    ensures
        r is Some == valid_utf8(bytes@),
        r matches Some(s) ==> s@ == decode_utf8(bytes@),
{
    String::from_utf8(bytes.to_vec()).ok()
}

struct Reader<'a> {
    buf: &'a [u8],
    pos: usize,
}

impl Reader<'_> {
    fn u8(&mut self) -> (r: Option<u8>)
        ensures
            final(self).buf == old(self).buf,
            match r {
                Some(v) => read_byte(old(self).buf@, old(self).pos as int) == Some(
                    (v, final(self).pos as int),
                ),
                None => read_byte(old(self).buf@, old(self).pos as int) is None,
            },
    {
        if self.pos < self.buf.len() {
            let b: u8 = self.buf[self.pos];
            self.pos += 1;
            Some(b)
        } else {
            None
        }
    }

    fn u16(&mut self) -> (r: Option<u16>)
        ensures
            final(self).buf == old(self).buf,
            match r {
                Some(v) => read_number(old(self).buf@, old(self).pos as int) == Some(
                    (v as int, final(self).pos as int),
                ),
                None => read_number(old(self).buf@, old(self).pos as int) is None,
            },
    {
        let n: usize = self.buf.len();
        if n >= 2 && self.pos <= n - 2 {
            let low: u16 = self.buf[self.pos] as u16;
            let high: u16 = self.buf[self.pos + 1] as u16;
            self.pos += 2;
            Some(low + 256 * high)
        } else {
            None
        }
    }

    fn i16(&mut self) -> (r: Option<i16>)
        ensures
            final(self).buf == old(self).buf,
            match r {
                Some(v) => read_number(old(self).buf@, old(self).pos as int) matches Some((n, p))
                    && p == final(self).pos && as_signed(n) == v,
                None => read_number(old(self).buf@, old(self).pos as int) is None,
            },
    {
        match self.u16() {
            Some(v) => {
                let wide: i32 = v as i32;
                if wide >= 32768 {
                    Some((wide - 65536) as i16)
                } else {
                    Some(wide as i16)
                }
            },
            None => None,
        }
    }

    fn str(&mut self) -> (r: Option<String>)
        ensures
            final(self).buf == old(self).buf,
            match r {
                Some(v) => read_text(old(self).buf@, old(self).pos as int) == Some(
                    (v@, final(self).pos as int),
                ),
                None => read_text(old(self).buf@, old(self).pos as int) is None,
            },
    {
        let len: usize = match self.u16() {
            Some(v) => v as usize,
            None => return None,
        };
        if len > self.buf.len() - self.pos {
            return None;
        }
        let bytes = vstd::slice::slice_subrange(self.buf, self.pos, self.pos + len);
        self.pos += len;
        utf8_text(bytes)
    }

    fn opt_str(&mut self) -> (r: Option<Option<String>>)
        ensures
            final(self).buf == old(self).buf,
            match r {
                Some(v) => read_opt_text(old(self).buf@, old(self).pos as int) == Some(
                    (opt_text(v), final(self).pos as int),
                ),
                None => read_opt_text(old(self).buf@, old(self).pos as int) is None,
            },
    {
        match self.u8() {
            None => None,
            Some(tag) => if tag == 0 {
                Some(None)
            } else {
                match self.str() {
                    Some(s) => Some(Some(s)),
                    None => None,
                }
            },
        }
    }

    fn col(&mut self) -> (r: Option<ColSummary>)
        ensures
            final(self).buf == old(self).buf,
            match r {
                Some(v) => read_col(old(self).buf@, old(self).pos as int) == Some(
                    (v@, final(self).pos as int),
                ),
                None => read_col(old(self).buf@, old(self).pos as int) is None,
            },
    {
        let attnum: i16 = self.i16()?;
        let overlap: u8 = self.u8()?;
        let flags: u8 = self.u8()?;
        let sql_type = self.str()?;
        let min = self.opt_str()?;
        let max = self.opt_str()?;
        Some(
            ColSummary {
                attnum,
                overlap: overlap != 0,
                sql_type,
                min,
                max,
                has_nulls: flags % 2 == 1,
                all_nulls: flags / 2 % 2 == 1,
            },
        )
    }
}

/// The summary that `buf` holds, or nothing where the version is another one, the buffer
/// ends too early, or a text is not UTF-8.
pub fn deserialize(buf: &[u8]) -> (r: Option<IndexSummary>)
    ensures
        r matches Some(s) ==> parse_summary(buf@) == Some(s@),
        r is None ==> parse_summary(buf@) is None,
{
    let mut r = Reader { buf, pos: 0 };
    let version: u8 = r.u8()?;
    if version != SUMMARY_VERSION {
        return None;
    }
    let ncols: usize = r.u16()? as usize;
    let mut cols: Vec<ColSummary> = Vec::with_capacity(ncols);
    let ghost start = r.pos as int;
    assert(col_models(cols@) =~= Seq::<ColModel>::empty());
    let mut i: usize = 0;
    while i < ncols
        invariant
            0 <= i <= ncols,
            r.buf@ == buf@,
            buf@.len() >= 1,
            buf@[0] == SUMMARY_VERSION,
            read_number(buf@, 1) == Some((ncols as int, start)),
            read_cols(buf@, start, i as nat) == Some((col_models(cols@), r.pos as int)),
        decreases ncols - i,
    {
        match r.col() {
            Some(c) => {
                let ghost before = col_models(cols@);
                cols.push(c);
                assert(col_models(cols@) =~= before.push(c@));
                i += 1;
            },
            None => {
                proof {
                    lemma_read_cols_stops(buf@, start, i as nat, ncols as nat);
                }
                return None;
            },
        }
    }
    Some(IndexSummary { cols })
}

/// Where a record cannot be read, no longer run of records can.
proof fn lemma_read_cols_stops(b: Seq<u8>, pos: int, i: nat, n: nat)
    requires
        i < n,
        read_cols(b, pos, i + 1) is None,
    ensures
        read_cols(b, pos, n) is None,
    decreases n,
{
    if i + 1 < n {
        lemma_read_cols_stops(b, pos, i, (n - 1) as nat);
    }
}

// ---- the metapage ----------------------------------------------------------------

/// The order in which the machine stores the bytes of an integer.
#[derive(Clone, Copy, Debug, PartialEq, Eq, Structural)]
pub enum ByteOrder {
    Little,
    Big,
}

/// What the layout of a metapage depends on besides its content.
#[derive(Clone, Copy, Debug, PartialEq, Eq, Structural)]
pub struct PageFormat {
    pub order: ByteOrder,
    /// The server's block size.
    pub block_size: usize,
}

impl PageFormat {
    /// The block sizes a server can be built with.
    pub open spec fn valid(self) -> bool {
        1024 <= self.block_size <= 32768
    }

    /// The longest blob a metapage takes.
    pub open spec fn capacity(self) -> int {
        self.block_size - 64
    }
}

/// The four bytes of a 32-bit number in the given byte order.
pub open spec fn u32_bytes(order: ByteOrder, n: int) -> Seq<u8> {
    let b0 = (n % 256) as u8;
    let b1 = (n / 256 % 256) as u8;
    let b2 = (n / 65536 % 256) as u8;
    let b3 = (n / 16777216 % 256) as u8;
    match order {
        ByteOrder::Little => seq![b0, b1, b2, b3],
        ByteOrder::Big => seq![b3, b2, b1, b0],
    }
}

/// The number that the first four bytes of `b` stand for.
pub open spec fn u32_value(order: ByteOrder, b: Seq<u8>) -> int {
    match order {
        ByteOrder::Little => b[0] + 256 * b[1] + 65536 * b[2] + 16777216 * b[3],
        ByteOrder::Big => b[3] + 256 * b[2] + 65536 * b[1] + 16777216 * b[0],
    }
}

/// The bytes a blob takes at the start of the metapage's contents: its length, then itself.
pub open spec fn frame(format: PageFormat, data: Seq<u8>) -> Seq<u8> {
    u32_bytes(format.order, data.len() as int) + data
}

/// The blob a metapage holds. A length of zero, or one past the capacity, is no blob.
pub open spec fn stored_blob(format: PageFormat, contents: Seq<u8>) -> Option<Seq<u8>> {
    let n = u32_value(format.order, contents);
    if n == 0 || n > format.capacity() {
        None
    } else {
        Some(contents.subrange(4, 4 + n))
    }
}

/// `contents` after `bytes` were written over its start.
pub open spec fn overwritten(contents: Seq<u8>, bytes: Seq<u8>) -> Seq<u8> {
    bytes + contents.skip(bytes.len() as int)
}

/// Usable bytes of the metapage's contents behind the length. The margin keeps clear of the
/// page header whatever the alignment.
pub fn max_blob_len(format: PageFormat) -> (n: usize)
    requires
        format.valid(),
    ensures
        n == format.capacity(),
{
    format.block_size - 64
}

/// What to write over the start of the metapage's contents so that it holds `data`.
pub fn write_blob(format: PageFormat, data: &[u8]) -> (r: Result<Vec<u8>, &'static str>)
    requires
        format.valid(),
    ensures
        r is Ok <==> data@.len() <= format.capacity(),
        r matches Ok(bytes) ==> bytes@ == frame(format, data@),
        r matches Err(e) ==> e@ == "table_range: summary blob exceeds one page"@,
{
    if data.len() > max_blob_len(format) {
        return Err("table_range: summary blob exceeds one page");
    }
    let n: usize = data.len();
    let b0: u8 = (n % 256) as u8;
    let b1: u8 = (n / 256 % 256) as u8;
    let b2: u8 = (n / 65536 % 256) as u8;
    let b3: u8 = (n / 16777216 % 256) as u8;
    let mut out: Vec<u8> = Vec::new();
    match format.order {
        ByteOrder::Little => {
            out.push(b0);
            out.push(b1);
            out.push(b2);
            out.push(b3);
        },
        ByteOrder::Big => {
            out.push(b3);
            out.push(b2);
            out.push(b1);
            out.push(b0);
        },
    }
    assert(out@ =~= u32_bytes(format.order, n as int));
    push_all(&mut out, data);
    Ok(out)
}

/// The blob in the metapage whose contents are `contents`; `None` there means that the index
/// has no block yet, or that the block was never initialised.
pub fn read_blob(format: PageFormat, contents: Option<&[u8]>) -> (r: Option<Vec<u8>>)
    requires
        format.valid(),
        contents matches Some(c) ==> c@.len() >= 4 + format.capacity(),
    ensures
        match (r, contents) {
            (Some(blob), Some(c)) => stored_blob(format, c@) == Some(blob@),
            (Some(_), None) => false,
            (None, Some(c)) => stored_blob(format, c@) is None,
            (None, None) => true,
        },
{
    let page = contents?;
    let b0: usize = page[0] as usize;
    let b1: usize = page[1] as usize;
    let b2: usize = page[2] as usize;
    let b3: usize = page[3] as usize;
    let n: usize = match format.order {
        ByteOrder::Little => b0 + 256 * b1 + 65536 * b2 + 16777216 * b3,
        ByteOrder::Big => b3 + 256 * b2 + 65536 * b1 + 16777216 * b0,
    };
    if n == 0 || n > max_blob_len(format) {
        return None;
    }
    let blob = vstd::slice::slice_to_vec(vstd::slice::slice_subrange(page, 4, 4 + n));
    Some(blob)
}

/// What to write over the start of the metapage's contents so that it holds `summary`.
pub fn write_summary(format: PageFormat, summary: &IndexSummary) -> (r: Result<
    Vec<u8>,
    &'static str,
>)
    requires
        format.valid(),
    ensures
        r is Ok <==> summary_bytes(summary@).len() <= format.capacity(),
        r matches Ok(bytes) ==> bytes@ == frame(format, summary_bytes(summary@)),
        r matches Err(e) ==> e@ == "table_range: summary blob exceeds one page"@,
{
    write_blob(format, serialize(summary).as_slice())
}

/// The blob that takes the place of a metapage's summary: the new summary where it fits, otherwise
/// an empty one, which reads as no summary at all.
pub open spec fn replacement(format: PageFormat, s: Seq<ColModel>) -> Seq<u8> {
    if summary_bytes(s).len() <= format.capacity() {
        summary_bytes(s)
    } else {
        Seq::empty()
    }
}

/// What to write over the start of the metapage's contents so that it no longer holds its old
/// summary. A summary that was widened replaces a narrower one: where it has no room, the page is
/// left without a summary, and the relation is not pruned.
pub fn replace_summary(format: PageFormat, summary: &IndexSummary) -> (r: Vec<u8>)
    requires
        format.valid(),
    ensures
        r@ == frame(format, replacement(format, summary@)),
{
    match write_summary(format, summary) {
        Ok(bytes) => bytes,
        Err(_) => erase_summary(format),
    }
}

/// What to write over the start of the metapage's contents so that it holds no summary.
pub fn erase_summary(format: PageFormat) -> (r: Vec<u8>)
    requires
        format.valid(),
    ensures
        r@ == frame(format, Seq::empty()),
{
    let mut out: Vec<u8> = Vec::new();
    out.push(0);
    out.push(0);
    out.push(0);
    out.push(0);
    assert(out@ =~= frame(format, Seq::empty()));
    out
}

/// The summary a metapage with these contents stands for.
pub open spec fn stored_summary(format: PageFormat, contents: Seq<u8>) -> Option<Seq<ColModel>> {
    match stored_blob(format, contents) {
        Some(blob) => parse_summary(blob),
        None => None,
    }
}

/// The summary in the metapage, where there is one.
pub fn read_summary(format: PageFormat, contents: Option<&[u8]>) -> (r: Option<IndexSummary>)
    requires
        format.valid(),
        contents matches Some(c) ==> c@.len() >= 4 + format.capacity(),
    ensures
        match (r, contents) {
            (Some(s), Some(c)) => stored_summary(format, c@) == Some(s@),
            (Some(_), None) => false,
            (None, Some(c)) => stored_summary(format, c@) is None,
            (None, None) => true,
        },
{
    let blob = read_blob(format, contents)?;
    deserialize(blob.as_slice())
}

// ---- a readable form -------------------------------------------------------------

pub open spec fn bool_text(b: bool) -> Seq<char> {
    if b {
        "true"@
    } else {
        "false"@
    }
}

fn bool_str(b: bool) -> (r: &'static str)
    ensures
        r@ == bool_text(b),
{
    if b {
        "true"
    } else {
        "false"
    }
}

/// One column in readable form, with `lo` and `hi` for its minimum and maximum.
pub open spec fn readable_col(c: ColModel, lo: Seq<char>, hi: Seq<char>) -> Seq<char> {
    "attnum="@ + signed_decimal(c.attnum as int) + " overlap="@ + bool_text(c.overlap) + " min="@
        + lo + " max="@ + hi + " has_nulls="@ + bool_text(c.has_nulls) + " all_nulls="@ + bool_text(
        c.all_nulls,
    )
}

/// The first `n` columns in readable form.
pub open spec fn readable_cols(cols: Seq<ColModel>, bounds: Seq<(String, String)>, n: nat) -> Seq<
    char,
>
    decreases n,
{
    if n == 0 {
        Seq::empty()
    } else {
        let i = n - 1;
        let last = readable_col(cols[i], bounds[i].0@, bounds[i].1@);
        if i == 0 {
            last
        } else {
            readable_cols(cols, bounds, i as nat) + "; "@ + last
        }
    }
}

fn push_readable(out: &mut String, c: &ColSummary, lo: &str, hi: &str)
    ensures
        final(out)@ == old(out)@ + readable_col(c@, lo@, hi@),
{
    let mut col = "attnum=".to_string();
    push_signed(&mut col, c.attnum);
    col.append(" overlap=");
    col.append(bool_str(c.overlap));
    col.append(" min=");
    col.append(lo);
    col.append(" max=");
    col.append(hi);
    col.append(" has_nulls=");
    col.append(bool_str(c.has_nulls));
    col.append(" all_nulls=");
    col.append(bool_str(c.all_nulls));
    out.append(&col);
}

/// Writes a summary in readable form; `bounds` are the texts to show for the minimum and the
/// maximum of each column.
pub fn render_summary(summary: &Option<IndexSummary>, bounds: &Vec<(String, String)>) -> (r: String)
    requires
        summary matches Some(s) ==> bounds@.len() == s@.len(),
    ensures
        r@ == (match *summary {
            Some(s) => readable_cols(s@, bounds@, s@.len()),
            None => "none"@,
        }),
{
    let s = match summary {
        Some(s) => s,
        None => return "none".to_string(),
    };
    let mut out = String::new();
    let mut i: usize = 0;
    assert(out@ =~= Seq::<char>::empty());
    while i < s.cols.len()
        invariant
            0 <= i <= s.cols@.len(),
            bounds@.len() == s.cols@.len(),
            out@ == readable_cols(s@, bounds@, i as nat),
        decreases s.cols@.len() - i,
    {
        if i > 0 {
            out.append("; ");
        }
        let ghost before = out@;
        push_readable(&mut out, &s.cols[i], &bounds[i].0, &bounds[i].1);
        assert(i == 0 ==> before =~= Seq::<char>::empty());
        assert(i == 0 ==> out@ =~= readable_col(s@[0], bounds@[0].0@, bounds@[0].1@));
        i += 1;
    }
    out
}

// ---- laws ------------------------------------------------------------------------

/// `piece` stands in `b` at `pos`.
spec fn stands(b: Seq<u8>, pos: int, piece: Seq<u8>) -> bool {
    &&& 0 <= pos
    &&& pos + piece.len() <= b.len()
    &&& b.subrange(pos, pos + piece.len()) == piece
}

proof fn lemma_split(b: Seq<u8>, pos: int, x: Seq<u8>, y: Seq<u8>)
    requires
        stands(b, pos, x + y),
    ensures
        stands(b, pos, x),
        stands(b, pos + x.len(), y),
{
    let whole = b.subrange(pos, pos + (x + y).len());
    assert(b.subrange(pos, pos + x.len()) =~= whole.take(x.len() as int));
    assert(whole.take(x.len() as int) =~= x);
    assert(b.subrange(pos + x.len(), pos + x.len() + y.len()) =~= whole.skip(x.len() as int));
    assert(whole.skip(x.len() as int) =~= y);
}

proof fn lemma_prefix(x: Seq<u8>, rest: Seq<u8>)
    ensures
        stands(x + rest, 0, x),
{
    assert((x + rest).subrange(0, x.len() as int) =~= x);
}

proof fn lemma_number(b: Seq<u8>, pos: int, n: int)
    requires
        stands(b, pos, u16_bytes(n)),
    ensures
        read_number(b, pos) == Some((n % 65536, pos + 2)),
{
    let piece = b.subrange(pos, pos + 2);
    assert(piece[0] == b[pos] && piece[1] == b[pos + 1]);
    assert(n % 256 + 256 * (n / 256 % 256) == n % 65536);
}

/// The lengths of a column's texts fit their 16-bit fields.
pub open spec fn col_fits(c: ColModel) -> bool {
    &&& encode_utf8(c.sql_type).len() < 65536
    &&& c.min matches Some(t) ==> encode_utf8(t).len() < 65536
    &&& c.max matches Some(t) ==> encode_utf8(t).len() < 65536
}

/// The number of columns and the lengths of their texts fit their 16-bit fields.
pub open spec fn summary_fits(s: Seq<ColModel>) -> bool {
    &&& s.len() < 65536
    &&& forall|i: int| 0 <= i < s.len() ==> col_fits(#[trigger] s[i])
}

proof fn lemma_text(b: Seq<u8>, pos: int, s: Seq<char>)
    requires
        stands(b, pos, text_bytes(s)),
        encode_utf8(s).len() < 65536,
    ensures
        read_text(b, pos) == Some((s, pos + text_bytes(s).len())),
{
    let bytes = encode_utf8(s);
    lemma_split(b, pos, u16_bytes(bytes.len() as int), bytes);
    lemma_number(b, pos, bytes.len() as int);
    vstd::utf8::encode_utf8_valid_utf8(s);
    vstd::utf8::encode_utf8_decode_utf8(s);
}

proof fn lemma_opt_text(b: Seq<u8>, pos: int, s: Option<Seq<char>>)
    requires
        stands(b, pos, opt_text_bytes(s)),
        s matches Some(t) ==> encode_utf8(t).len() < 65536,
    ensures
        read_opt_text(b, pos) == Some((s, pos + opt_text_bytes(s).len())),
{
    assert(b.subrange(pos, pos + opt_text_bytes(s).len())[0] == b[pos]);
    match s {
        Some(t) => {
            lemma_split(b, pos, seq![1u8], text_bytes(t));
            lemma_text(b, pos + 1, t);
        },
        None => {},
    }
}

proof fn lemma_col(b: Seq<u8>, pos: int, c: ColModel)
    requires
        stands(b, pos, col_bytes(c)),
        col_fits(c),
    ensures
        read_col(b, pos) == Some((c, pos + col_bytes(c).len())),
{
    let a = u16_bytes(c.attnum as int);
    let f = seq![
        flag(c.overlap, 1) as u8,
        (flag(c.has_nulls, 1) + flag(c.all_nulls, 2)) as u8,
    ];
    let t = text_bytes(c.sql_type);
    let lo = opt_text_bytes(c.min);
    let hi = opt_text_bytes(c.max);
    lemma_split(b, pos, a + f + t + lo, hi);
    lemma_split(b, pos, a + f + t, lo);
    lemma_split(b, pos, a + f, t);
    lemma_split(b, pos, a, f);
    lemma_number(b, pos, c.attnum as int);
    let flags = b.subrange(pos + 2, pos + 4);
    assert(flags[0] == b[pos + 2] && flags[1] == b[pos + 3]);
    lemma_text(b, pos + 4, c.sql_type);
    lemma_opt_text(b, pos + 4 + t.len(), c.min);
    lemma_opt_text(b, pos + 4 + t.len() + lo.len(), c.max);
    assert(as_signed(c.attnum as int % 65536) == c.attnum);
    let (read, _) = read_col(b, pos)->0;
    assert(read =~= c);
}

proof fn lemma_cols(b: Seq<u8>, pos: int, s: Seq<ColModel>)
    requires
        stands(b, pos, cols_bytes(s)),
        forall|i: int| 0 <= i < s.len() ==> col_fits(#[trigger] s[i]),
    ensures
        read_cols(b, pos, s.len()) == Some((s, pos + cols_bytes(s).len())),
    decreases s.len(),
{
    if s.len() == 0 {
        assert(s =~= Seq::<ColModel>::empty());
    } else {
        let front = s.drop_last();
        lemma_split(b, pos, cols_bytes(front), col_bytes(s.last()));
        assert forall|i: int| 0 <= i < front.len() implies col_fits(#[trigger] front[i]) by {
            assert(front[i] == s[i]);
        }
        lemma_cols(b, pos, front);
        assert(col_fits(s[s.len() - 1]));
        lemma_col(b, pos + cols_bytes(front).len(), s.last());
        assert(front.push(s.last()) =~= s);
    }
}

proof fn lemma_summary(b: Seq<u8>, s: Seq<ColModel>)
    requires
        stands(b, 0, summary_bytes(s)),
        summary_fits(s),
    ensures
        read_number(b, 1) == Some((s.len() as int, 3int)),
        read_cols(b, 3, s.len()) == Some((s, summary_bytes(s).len() as int)),
        parse_summary(b) == Some(s),
{
    let head = seq![SUMMARY_VERSION];
    let count = u16_bytes(s.len() as int);
    lemma_split(b, 0, head + count, cols_bytes(s));
    lemma_split(b, 0, head, count);
    assert(b[0] == b.subrange(0, 1)[0]);
    lemma_number(b, 1, s.len() as int);
    lemma_cols(b, 3, s);
}

/// Whatever is read out of a blob fits the format's fields.
proof fn lemma_parsed_fits(b: Seq<u8>, pos: int, n: nat)
    ensures
        read_cols(b, pos, n) matches Some((cols, _)) ==> cols.len() == n && forall|i: int|
            0 <= i < n ==> col_fits(#[trigger] cols[i]),
    decreases n,
{
    if n > 0 {
        lemma_parsed_fits(b, pos, (n - 1) as nat);
        if let Some((cols, p)) = read_cols(b, pos, (n - 1) as nat) {
            if let Some((c, end)) = read_col(b, p) {
                assert forall|q: int| #![trigger read_text(b, q)] {
                    read_text(b, q) matches Some((t, _)) ==> encode_utf8(t).len() < 65536
                } by {
                    if read_text(b, q) is Some {
                        let (len, start) = read_number(b, q)->0;
                        vstd::utf8::decode_utf8_encode_utf8(b.subrange(start, start + len));
                    }
                }
            }
        }
    }
}

/// A blob that starts with a summary's stored form reads back as that summary, whatever
/// follows it in the buffer.
pub proof fn law_stored_form_reads_back(s: Seq<ColModel>, rest: Seq<u8>)
    requires
        summary_fits(s),
    ensures
        parse_summary(summary_bytes(s) + rest) == Some(s),
{
    lemma_prefix(summary_bytes(s), rest);
    lemma_summary(summary_bytes(s) + rest, s);
}

/// Reading back what was serialized gives the summary itself, for exactly the summaries
/// whose column count and text lengths fit the stored form's 16-bit fields.
pub proof fn law_roundtrip(s: Seq<ColModel>)
    ensures
        parse_summary(summary_bytes(s)) == Some(s) <==> summary_fits(s),
{
    let b = summary_bytes(s);
    if summary_fits(s) {
        law_stored_form_reads_back(s, Seq::empty());
        assert(b + Seq::<u8>::empty() =~= b);
    }
    if parse_summary(b) == Some(s) {
        let (n, pos) = read_number(b, 1)->0;
        lemma_parsed_fits(b, pos, n as nat);
    }
}

proof fn lemma_cols_length(s: Seq<ColModel>, i: int)
    requires
        0 <= i < s.len(),
    ensures
        cols_bytes(s).len() >= 8 * s.len(),
        cols_bytes(s).len() >= col_bytes(s[i]).len(),
    decreases s.len(),
{
    if s.len() > 1 {
        let front = s.drop_last();
        let k = if i < s.len() - 1 {
            i
        } else {
            0
        };
        assert(front[k] == s[k]);
        lemma_cols_length(front, k);
    } else {
        assert(cols_bytes(s.drop_last()) =~= Seq::<u8>::empty());
    }
}

/// A summary whose blob fits a metapage also fits the fields of its stored form.
pub proof fn law_page_sized_summaries_fit(format: PageFormat, s: Seq<ColModel>)
    requires
        format.valid(),
        summary_bytes(s).len() <= format.capacity(),
    ensures
        summary_fits(s),
{
    assert forall|i: int| 0 <= i < s.len() implies col_fits(#[trigger] s[i]) by {
        lemma_cols_length(s, i);
    }
    if s.len() > 0 {
        lemma_cols_length(s, 0);
    }
}

/// What [`write_blob`] put into a page is what [`read_blob`] finds there; only an empty blob
/// reads back as none.
pub proof fn law_blob_reads_back(format: PageFormat, page: Seq<u8>, data: Seq<u8>)
    requires
        format.valid(),
        page.len() >= 4 + format.capacity(),
        data.len() <= format.capacity(),
    ensures
        stored_blob(format, overwritten(page, frame(format, data))) == if data.len() > 0 {
            Some(data)
        } else {
            None
        },
{
    let after = overwritten(page, frame(format, data));
    let n = data.len() as int;
    assert(n % 256 + 256 * (n / 256 % 256) == n);
    assert(n / 65536 == 0 && n / 16777216 == 0);
    assert(after[0] == u32_bytes(format.order, n)[0]);
    assert(after[1] == u32_bytes(format.order, n)[1]);
    assert(after[2] == u32_bytes(format.order, n)[2]);
    assert(after[3] == u32_bytes(format.order, n)[3]);
    assert(after.subrange(4, 4 + n) =~= data);
}

/// Once [`write_summary`] accepted a summary and the page holds its bytes, [`read_summary`]
/// gives that summary back. Nothing else is asked of the summary.
pub proof fn law_summary_reads_back(format: PageFormat, page: Seq<u8>, s: Seq<ColModel>)
    requires
        format.valid(),
        page.len() >= 4 + format.capacity(),
        summary_bytes(s).len() <= format.capacity(),
    ensures
        stored_summary(format, overwritten(page, frame(format, summary_bytes(s)))) == Some(s),
{
    law_page_sized_summaries_fit(format, s);
    law_roundtrip(s);
    law_blob_reads_back(format, page, summary_bytes(s));
}

/// A page whose summary was replaced reads as the new summary where that fits the page, and
/// otherwise as no summary; never as the old one.
pub proof fn law_replaced_summaries_read_back(format: PageFormat, page: Seq<u8>, s: Seq<ColModel>)
    requires
        format.valid(),
        page.len() >= 4 + format.capacity(),
    ensures
        stored_summary(format, overwritten(page, frame(format, replacement(format, s)))) == if (
        summary_bytes(s).len() <= format.capacity()) {
            Some(s)
        } else {
            None
        },
{
    if summary_bytes(s).len() <= format.capacity() {
        law_summary_reads_back(format, page, s);
    } else {
        law_blob_reads_back(format, page, Seq::empty());
    }
}

// ---- blobs that are cut short ----------------------------------------------------

/// What is read from the first `n` bytes is what is read from all of them, and ends within the
/// first `n`.
proof fn lemma_cut_text(b: Seq<u8>, n: int, pos: int)
    requires
        0 <= n <= b.len(),
    ensures
        read_text(b.take(n), pos) matches Some((_, end)) ==> end <= n && read_text(b, pos)
            == read_text(b.take(n), pos),
{
    let cut = b.take(n);
    if let Some((len, start)) = read_number(cut, pos) {
        assert(cut[pos] == b[pos] && cut[pos + 1] == b[pos + 1]);
        if start + len <= n {
            assert(cut.subrange(start, start + len) =~= b.subrange(start, start + len));
        }
    }
}

proof fn lemma_cut_opt_text(b: Seq<u8>, n: int, pos: int)
    requires
        0 <= n <= b.len(),
    ensures
        read_opt_text(b.take(n), pos) matches Some((_, end)) ==> end <= n && read_opt_text(b, pos)
            == read_opt_text(b.take(n), pos),
{
    let cut = b.take(n);
    if let Some((_, next)) = read_byte(cut, pos) {
        assert(cut[pos] == b[pos]);
        lemma_cut_text(b, n, next);
    }
}

proof fn lemma_cut_col(b: Seq<u8>, n: int, pos: int)
    requires
        0 <= n <= b.len(),
    ensures
        read_col(b.take(n), pos) matches Some((_, end)) ==> end <= n && read_col(b, pos)
            == read_col(b.take(n), pos),
{
    let cut = b.take(n);
    if read_col(cut, pos) is Some {
        let (_, p1) = read_number(cut, pos)->0;
        assert(cut[pos] == b[pos] && cut[pos + 1] == b[pos + 1]);
        let (_, p2) = read_byte(cut, p1 + 1)->0;
        assert(cut[p1] == b[p1] && cut[p1 + 1] == b[p1 + 1]);
        lemma_cut_text(b, n, p2);
        let (_, p3) = read_text(cut, p2)->0;
        lemma_cut_opt_text(b, n, p3);
        let (_, p4) = read_opt_text(cut, p3)->0;
        lemma_cut_opt_text(b, n, p4);
    }
}

proof fn lemma_cut_cols(b: Seq<u8>, n: int, pos: int, count: nat)
    requires
        0 <= pos <= n <= b.len(),
    ensures
        read_cols(b.take(n), pos, count) matches Some((_, end)) ==> end <= n && read_cols(
            b,
            pos,
            count,
        ) == read_cols(b.take(n), pos, count),
    decreases count,
{
    if count > 0 {
        lemma_cut_cols(b, n, pos, (count - 1) as nat);
        if let Some((_, p)) = read_cols(b.take(n), pos, (count - 1) as nat) {
            lemma_cut_col(b, n, p);
        }
    }
}

/// A blob that was cut short reads as nothing: of a summary's stored form, nothing but the whole
/// gives a summary.
pub proof fn law_cut_short_reads_as_nothing(s: Seq<ColModel>, n: int)
    requires
        summary_fits(s),
        0 <= n < summary_bytes(s).len(),
    ensures
        parse_summary(summary_bytes(s).take(n)) is None,
{
    let b = summary_bytes(s);
    let cut = b.take(n);
    assert(b.subrange(0, b.len() as int) =~= b);
    lemma_summary(b, s);
    if read_number(cut, 1) is Some {
        assert(cut[1] == b[1] && cut[2] == b[2]);
        assert(read_number(cut, 1) == read_number(b, 1));
        lemma_cut_cols(b, n, 3, s.len());
        assert(read_cols(cut, 3, s.len()) is None);
    }
}

// ---- blobs from elsewhere --------------------------------------------------------

/// A bound as any writer may store it: every presence byte but zero says that there is one.
pub open spec fn loose_bound(t: Option<Seq<char>>, presence: u8) -> Seq<u8> {
    match t {
        Some(t) => seq![presence] + text_bytes(t),
        None => seq![0u8],
    }
}

/// A column as any writer may store it.
pub open spec fn loose_column(c: ColModel, overlap: u8, flags: u8, min: u8, max: u8) -> Seq<u8> {
    u16_bytes(c.attnum as int) + seq![overlap, flags] + text_bytes(c.sql_type) + loose_bound(
        c.min,
        min,
    ) + loose_bound(c.max, max)
}

proof fn lemma_loose_bound(b: Seq<u8>, pos: int, t: Option<Seq<char>>, presence: u8)
    requires
        stands(b, pos, loose_bound(t, presence)),
        presence != 0,
        t matches Some(t) ==> encode_utf8(t).len() < 65536,
    ensures
        read_opt_text(b, pos) == Some((t, pos + loose_bound(t, presence).len())),
{
    match t {
        Some(t) => {
            lemma_split(b, pos, seq![presence], text_bytes(t));
            assert(b[pos] == b.subrange(pos, pos + 1)[0]);
            lemma_text(b, pos + 1, t);
        },
        None => {
            assert(b[pos] == b.subrange(pos, pos + 1)[0]);
        },
    }
}

#[verifier::spinoff_prover]
proof fn lemma_loose_column(
    b: Seq<u8>,
    pos: int,
    c: ColModel,
    overlap: u8,
    flags: u8,
    min: u8,
    max: u8,
)
    requires
        stands(b, pos, loose_column(c, overlap, flags, min, max)),
        col_fits(c),
        c.overlap <==> overlap != 0,
        c.has_nulls <==> flags % 2 == 1,
        c.all_nulls <==> flags / 2 % 2 == 1,
        min != 0,
        max != 0,
    ensures
        read_col(b, pos) == Some((c, pos + loose_column(c, overlap, flags, min, max).len())),
{
    let a = u16_bytes(c.attnum as int);
    let f = seq![overlap, flags];
    let t = text_bytes(c.sql_type);
    let lo = loose_bound(c.min, min);
    let hi = loose_bound(c.max, max);
    lemma_split(b, pos, a + f + t + lo, hi);
    lemma_split(b, pos, a + f + t, lo);
    lemma_split(b, pos, a + f, t);
    lemma_split(b, pos, a, f);
    lemma_number(b, pos, c.attnum as int);
    let two = b.subrange(pos + 2, pos + 4);
    assert(two[0] == b[pos + 2] && two[1] == b[pos + 3]);
    lemma_text(b, pos + 4, c.sql_type);
    lemma_loose_bound(b, pos + 4 + t.len(), c.min, min);
    lemma_loose_bound(b, pos + 4 + t.len() + lo.len(), c.max, max);
    assert(as_signed(c.attnum as int % 65536) == c.attnum);
    let (read, _) = read_col(b, pos)->0;
    assert(read =~= c);
}

/// What a column's bytes say is read from them, whatever else is set: every overlap byte but zero
/// says that there is an extent, every presence byte but zero that there is a bound, and of the
/// flags the lowest bit says that there are nulls and the next one that all are null.
pub proof fn law_bytes_say_what_is_set(
    c: ColModel,
    overlap: u8,
    flags: u8,
    min: u8,
    max: u8,
    rest: Seq<u8>,
)
    requires
        col_fits(c),
        c.overlap <==> overlap != 0,
        c.has_nulls <==> flags % 2 == 1,
        c.all_nulls <==> flags / 2 % 2 == 1,
        min != 0,
        max != 0,
    ensures
        parse_summary(seq![1u8, 1u8, 0u8] + loose_column(c, overlap, flags, min, max) + rest)
            == Some(seq![c]),
{
    let record = loose_column(c, overlap, flags, min, max);
    let b = seq![1u8, 1u8, 0u8] + record + rest;
    assert(b.subrange(3, 3 + record.len() as int) =~= record);
    lemma_loose_column(b, 3, c, overlap, flags, min, max);
    assert(b[0] == 1 && b[1] == 1 && b[2] == 0);
    assert(read_number(b, 1) == Some((1int, 3int)));
    assert(read_cols(b, 3, 0) == Some((Seq::<ColModel>::empty(), 3int)));
    let (cols, _) = read_cols(b, 3, 1)->0;
    assert(cols =~= seq![c]);
}

} // verus!
