//! The capture file codec: a gzip-wrapped sequence of length- and
//! timestamp-framed blobs.
//!
//! Each record is a big-endian 16-bit data length, a big-endian 64-bit
//! timestamp in milliseconds since the Unix epoch, and the data bytes. A
//! write larger than a record can carry is split into records sharing the
//! timestamp.

use vstd::prelude::*;

verus! {

/// An error designating a capture stream that ends inside a record, or bytes
/// that are not a gzip stream.
#[derive(Debug, Copy, Clone, Eq, PartialEq, Structural)]
pub struct CaptureError;

/// The framed form of one record.
pub open spec fn spec_record_bytes(data: Seq<u8>, timestamp_ms: u64) -> Seq<u8>
    recommends
        data.len() <= 0xffff,
{
    seq![
        ((data.len() as u16) >> 8) as u8,
        ((data.len() as u16) & 0xff) as u8,
        (timestamp_ms >> 56) as u8,
        ((timestamp_ms >> 48) & 0xff) as u8,
        ((timestamp_ms >> 40) & 0xff) as u8,
        ((timestamp_ms >> 32) & 0xff) as u8,
        ((timestamp_ms >> 24) & 0xff) as u8,
        ((timestamp_ms >> 16) & 0xff) as u8,
        ((timestamp_ms >> 8) & 0xff) as u8,
        (timestamp_ms & 0xff) as u8,
    ] + data
}

/// The framed form of a record sequence.
pub open spec fn spec_records_bytes(records: Seq<(Seq<u8>, u64)>) -> Seq<u8>
    decreases records.len(),
{
    if records.len() == 0 {
        Seq::empty()
    } else {
        spec_record_bytes(records[0].0, records[0].1) + spec_records_bytes(records.drop_first())
    }
}

/// The records one write produces: data up to the record capacity goes out
/// as one record, anything longer is split into full records followed by the
/// remainder, all sharing the timestamp.
pub open spec fn spec_chunks(data: Seq<u8>, timestamp_ms: u64) -> Seq<(Seq<u8>, u64)>
    decreases data.len(),
{
    if data.len() <= 0xffff {
        seq![(data, timestamp_ms)]
    } else {
        seq![(data.take(0xffff), timestamp_ms)] + spec_chunks(data.skip(0xffff), timestamp_ms)
    }
}

/// The records a framed byte sequence parses to, and whether it ended
/// cleanly at a record boundary.
pub open spec fn spec_parse_records(b: Seq<u8>) -> (Seq<(Seq<u8>, u64)>, bool)
    decreases b.len(),
{
    if b.len() == 0 {
        (Seq::empty(), true)
    } else if b.len() < 10 {
        (Seq::empty(), false)
    } else {
        let len = (b[0] as int) * 256 + (b[1] as int);
        if b.len() - 10 < len {
            (Seq::empty(), false)
        } else {
            let ts = ((b[2] as u64) << 56 | (b[3] as u64) << 48 | (b[4] as u64) << 40 | (
            b[5] as u64) << 32 | (b[6] as u64) << 24 | (b[7] as u64) << 16 | (b[8] as u64) << 8 | (
            b[9] as u64)) as u64;
            let (rest, clean) = spec_parse_records(b.skip(10 + len));
            (seq![(b.subrange(10, 10 + len), ts)] + rest, clean)
        }
    }
}

/// What a gzip stream decompresses to, or `None` for bytes that are not a
/// well-formed gzip stream. This names the result of flate2's `GzDecoder`,
/// which depends on the compressed bytes alone.
pub uninterp spec fn spec_gunzip(bytes: Seq<u8>) -> Option<Seq<u8>>;

/// Relies on flate2's `GzEncoder` at best compression with the capture
/// comment: decompressing its output with `GzDecoder` yields exactly the
/// bytes that were compressed.
#[verifier::external_body]
fn gzip_compress(data: &[u8]) -> (r: Vec<u8>)
    ensures
        spec_gunzip(r@) == Some(data@),
{
    let mut encoder = flate2::GzBuilder::new().comment("taptap capture").write(
        Vec::new(),
        flate2::Compression::best(),
    );
    std::io::Write::write_all(&mut encoder, data).expect("writing to a Vec cannot fail");
    encoder.finish().expect("finishing a Vec-backed encoder cannot fail")
}

/// Relies on flate2's `GzDecoder`: it inflates a well-formed gzip stream to
/// the bytes that were compressed and rejects other input.
#[verifier::external_body]
fn gzip_decompress(data: &[u8]) -> (r: Option<Vec<u8>>)
    ensures
        r matches Some(d) ==> spec_gunzip(data@) == Some(d@),
        r is None ==> spec_gunzip(data@) is None,
{
    let mut decoder = flate2::bufread::GzDecoder::new(data);
    let mut out = Vec::new();
    match std::io::Read::read_to_end(&mut decoder, &mut out) {
        Ok(_) => Some(out),
        Err(_) => None,
    }
}

/// A capture writer: accumulates framed records and compresses them into a
/// capture file.
pub struct Writer {
    pub buffer: Vec<u8>,
}

impl View for Writer {
    type V = Seq<u8>;

    open spec fn view(&self) -> Seq<u8> {
        self.buffer@
    }
}

impl Writer {
    /// A writer with no records yet.
    pub fn new() -> (r: Writer)
        ensures
            r@ == Seq::<u8>::empty(),
    {
        Writer { buffer: Vec::new() }
    }

    /// Frame one record of at most the record capacity.
    fn write_record(&mut self, bytes: &[u8], timestamp_ms: u64)
        requires
            bytes@.len() <= 0xffff,
            old(self)@.len() + 10 + bytes@.len() <= usize::MAX,
        ensures
            final(self)@ == old(self)@ + spec_record_bytes(bytes@, timestamp_ms),
    {
        let len = bytes.len() as u16;
        self.buffer.push((len >> 8) as u8);
        self.buffer.push((len & 0xff) as u8);
        self.buffer.push((timestamp_ms >> 56) as u8);
        self.buffer.push(((timestamp_ms >> 48) & 0xff) as u8);
        self.buffer.push(((timestamp_ms >> 40) & 0xff) as u8);
        self.buffer.push(((timestamp_ms >> 32) & 0xff) as u8);
        self.buffer.push(((timestamp_ms >> 24) & 0xff) as u8);
        self.buffer.push(((timestamp_ms >> 16) & 0xff) as u8);
        self.buffer.push(((timestamp_ms >> 8) & 0xff) as u8);
        self.buffer.push((timestamp_ms & 0xff) as u8);
        let mut i: usize = 0;
        while i < bytes.len()
            invariant
                0 <= i <= bytes@.len(),
                bytes@.len() <= 0xffff,
                self.buffer@ == old(self)@ + spec_record_bytes(bytes@, timestamp_ms).take(
                    10 + i as int,
                ),
            decreases bytes@.len() - i,
        {
            self.buffer.push(bytes[i]);
            proof {
                assert(self.buffer@ =~= old(self)@ + spec_record_bytes(
                    bytes@,
                    timestamp_ms,
                ).take(10 + i as int + 1));
            }
            i = i + 1;
        }
        proof {
            assert(old(self)@ + spec_record_bytes(bytes@, timestamp_ms).take(
                10 + bytes@.len() as int,
            ) =~= old(self)@ + spec_record_bytes(bytes@, timestamp_ms));
        }
    }

    /// Append one write: data up to the record capacity becomes one record,
    /// anything longer is split into records sharing the timestamp.
    pub fn write(&mut self, bytes: &[u8], timestamp_ms: u64)
        requires
            old(self)@.len() + bytes@.len() + 10 * (bytes@.len() / 0xffff + 1) <= usize::MAX,
        ensures
            final(self)@ == old(self)@ + spec_records_bytes(spec_chunks(bytes@, timestamp_ms)),
    {
        let mut off: usize = 0;
        proof {
            assert(bytes@.skip(0) =~= bytes@);
        }
        while bytes.len() - off > 0xffff
            invariant
                0 <= off <= bytes@.len(),
                old(self)@.len() + bytes@.len() + 10 * (bytes@.len() / 0xffff + 1) <= usize::MAX,
                self@.len() <= old(self)@.len() + off + 10 * (off / 0xffff),
                off % 0xffff == 0,
                old(self)@ + spec_records_bytes(spec_chunks(bytes@, timestamp_ms)) == self@
                    + spec_records_bytes(spec_chunks(bytes@.skip(off as int), timestamp_ms)),
            decreases bytes@.len() - off,
        {
            let ghost pre = self@;
            let ghost remaining = bytes@.skip(off as int);
            let chunk: &[u8] = slice_range(bytes, off, off + 0xffff);
            proof {
                assert(chunk@ =~= remaining.take(0xffff));
                vstd::arithmetic::div_mod::lemma_mod_adds(off as int, 0xffff, 0xffff);
                vstd::arithmetic::div_mod::lemma_fundamental_div_mod(off as int, 0xffff);
                vstd::arithmetic::div_mod::lemma_fundamental_div_mod(off as int + 0xffff, 0xffff);
            }
            self.write_record(chunk, timestamp_ms);
            proof {
                assert(spec_chunks(remaining, timestamp_ms) == seq![
                    (remaining.take(0xffff), timestamp_ms),
                ] + spec_chunks(remaining.skip(0xffff), timestamp_ms));
                assert(spec_chunks(remaining, timestamp_ms).drop_first() =~= spec_chunks(
                    remaining.skip(0xffff),
                    timestamp_ms,
                ));
                assert(remaining.skip(0xffff) =~= bytes@.skip(off as int + 0xffff));
                assert(pre + spec_records_bytes(spec_chunks(remaining, timestamp_ms)) =~= self@
                    + spec_records_bytes(
                    spec_chunks(bytes@.skip(off as int + 0xffff), timestamp_ms),
                ));
            }
            off = off + 0xffff;
        }
        let ghost remaining = bytes@.skip(off as int);
        let chunk: &[u8] = slice_range(bytes, off, bytes.len());
        proof {
            assert(chunk@ =~= remaining);
            assert(spec_chunks(remaining, timestamp_ms) =~= seq![(remaining, timestamp_ms)]);
            assert(spec_chunks(remaining, timestamp_ms).drop_first() =~= Seq::<
                (Seq<u8>, u64),
            >::empty());
        }
        self.write_record(chunk, timestamp_ms);
        proof {
            assert(remaining.len() <= 0xffff);
            assert(spec_records_bytes(Seq::<(Seq<u8>, u64)>::empty()) =~= Seq::<u8>::empty());
            assert(spec_records_bytes(spec_chunks(remaining, timestamp_ms)) =~= spec_record_bytes(
                remaining,
                timestamp_ms,
            ));
        }
    }

    /// Compress the accumulated records into a capture file.
    pub fn finish(self) -> (r: Vec<u8>)
        ensures
            spec_gunzip(r@) == Some(self@),
    {
        gzip_compress(self.buffer.as_slice())
    }
}

/// Copy a range of a slice.
fn slice_range(bytes: &[u8], start: usize, end: usize) -> (r: &[u8])
    requires
        0 <= start <= end <= bytes@.len(),
    ensures
        r@ == bytes@.subrange(start as int, end as int),
{
    vstd::slice::slice_subrange(bytes, start, end)
}

/// A capture reader: decompresses a capture file and yields its records.
pub struct Reader {
    pub data: Vec<u8>,
}

impl View for Reader {
    type V = Seq<u8>;

    open spec fn view(&self) -> Seq<u8> {
        self.data@
    }
}

impl Reader {
    /// Decompress a capture file; bytes that are not a gzip stream are
    /// rejected.
    pub fn new(compressed: &[u8]) -> (r: Result<Reader, CaptureError>)
        ensures
            spec_gunzip(compressed@) is Some <==> r is Ok,
            r matches Ok(reader) ==> spec_gunzip(compressed@) == Some(reader@),
    {
        match gzip_decompress(compressed) {
            Some(data) => Ok(Reader { data }),
            None => Err(CaptureError),
        }
    }

    /// Yield the next record: its data and its timestamp. Returns `None` at
    /// the clean end of the stream, and an error once when the stream ends
    /// inside a record, which consumes the rest.
    pub fn next(&mut self) -> (r: Option<Result<(Vec<u8>, u64), CaptureError>>)
        ensures
            ({
                let (records, clean) = spec_parse_records(old(self)@);
                match r {
                    None => old(self)@.len() == 0 && final(self)@ == old(self)@,
                    Some(Err(_)) => records.len() == 0 && !clean && final(self)@.len() == 0,
                    Some(Ok((data, ts))) => records.len() > 0 && data@ == records[0].0 && ts
                        == records[0].1 && final(self)@ == old(self)@.skip(10 + data@.len() as int),
                }
            }),
    {
        if self.data.len() == 0 {
            return None;
        }
        if self.data.len() < 10 {
            self.data.clear();
            return Some(Err(CaptureError));
        }
        let b0 = self.data[0];
        let b1 = self.data[1];
        let len16: u16 = (b0 as u16) << 8 | (b1 as u16);
        assert(len16 == (b0 as u16) * 256 + (b1 as u16)) by (bit_vector)
            requires
                len16 == (b0 as u16) << 8 | (b1 as u16),
        ;
        let len: usize = len16 as usize;
        if self.data.len() - 10 < len {
            self.data.clear();
            return Some(Err(CaptureError));
        }
        let ts: u64 = (self.data[2] as u64) << 56 | (self.data[3] as u64) << 48 | (
        self.data[4] as u64) << 40 | (self.data[5] as u64) << 32 | (self.data[6] as u64) << 24 | (
        self.data[7] as u64) << 16 | (self.data[8] as u64) << 8 | (self.data[9] as u64);
        let mut data: Vec<u8> = Vec::new();
        let mut i: usize = 10;
        while i < 10 + len
            invariant
                10 <= i <= 10 + len,
                self.data@.len() >= 10 + len,
                len <= 0xffff,
                data@ == self.data@.subrange(10, i as int),
            decreases 10 + len - i,
        {
            data.push(self.data[i]);
            i = i + 1;
        }
        let mut rest: Vec<u8> = Vec::new();
        let mut j: usize = 10 + len;
        while j < self.data.len()
            invariant
                10 + len <= j <= self.data@.len(),
                len <= 0xffff,
                rest@ == self.data@.subrange(10 + len as int, j as int),
            decreases self.data@.len() - j,
        {
            rest.push(self.data[j]);
            j = j + 1;
        }
        proof {
            assert(data@ =~= old(self)@.subrange(10, 10 + len as int));
            assert(rest@ =~= old(self)@.skip(10 + len as int));
        }
        self.data = rest;
        Some(Ok((data, ts)))
    }
}

/// Capture round trip: a record sequence in which every record fits the
/// record capacity parses back from its framed form, cleanly.
pub proof fn lemma_capture_round_trip(records: Seq<(Seq<u8>, u64)>)
    requires
        forall|i: int| 0 <= i < records.len() ==> (#[trigger] records[i]).0.len() <= 0xffff,
    ensures
        spec_parse_records(spec_records_bytes(records)) == (records, true),
    decreases records.len(),
{
    if records.len() == 0 {
    } else {
        let (data, ts) = records[0];
        let b = spec_records_bytes(records);
        let head = spec_record_bytes(data, ts);
        assert(b =~= head + spec_records_bytes(records.drop_first()));
        assert(b.len() >= 10 + data.len());
        let blen = (b[0] as int) * 256 + (b[1] as int);
        assert(b[0] == ((data.len() as u16) >> 8) as u8 && b[1] == ((data.len() as u16)
            & 0xff) as u8);
        let dl = data.len() as u16;
        let hi = (dl >> 8) as u8;
        let lo = (dl & 0xff) as u8;
        assert((hi as int) * 256 + (lo as int) == dl as int) by (bit_vector)
            requires
                hi == (dl >> 8) as u8 && lo == (dl & 0xff) as u8,
        ;
        assert(blen == data.len());
        let tsb = seq![b[2], b[3], b[4], b[5], b[6], b[7], b[8], b[9]];
        let t2 = ((b[2] as u64) << 56 | (b[3] as u64) << 48 | (b[4] as u64) << 40 | (b[5] as u64)
            << 32 | (b[6] as u64) << 24 | (b[7] as u64) << 16 | (b[8] as u64) << 8 | (
        b[9] as u64)) as u64;
        assert(t2 == ts) by (bit_vector)
            requires
                t2 == (((ts >> 56) as u8 as u64) << 56 | (((ts >> 48) & 0xff) as u8 as u64) << 48
                    | (((ts >> 40) & 0xff) as u8 as u64) << 40 | (((ts >> 32) & 0xff) as u8 as u64)
                    << 32 | (((ts >> 24) & 0xff) as u8 as u64) << 24 | (((ts >> 16)
                    & 0xff) as u8 as u64) << 16 | (((ts >> 8) & 0xff) as u8 as u64) << 8 | ((ts
                    & 0xff) as u8 as u64)) as u64,
        ;
        assert(b.subrange(10, 10 + blen) =~= data);
        assert(b.skip(10 + blen) =~= spec_records_bytes(records.drop_first()));
        lemma_capture_round_trip(records.drop_first());
        assert(seq![(b.subrange(10, 10 + blen), t2)] + spec_parse_records(b.skip(10 + blen)).0
            =~= records);
    }
}

} // verus!
