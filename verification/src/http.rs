//! Buffered reading of short HTTP responses.
//!
//! The transport that tunnels channel messages over HTTP answers with a
//! status line, headers and a body. [`ResponseReader`] holds the bytes read
//! so far and the parsing state: the caller appends raw chunks as they
//! arrive, locates the blank line that ends the headers, parses the headers
//! — a `200 OK` status line and a decimal `Content-Length` are required,
//! chunked transfer encoding is refused — and finally takes the body. The
//! whole response is bounded by [`MAX_RESPONSE_SIZE`]; exceeding it is an
//! error, never unbounded growth.

use vstd::prelude::*;

use crate::bytes::{bytes_match_at, copy_range, matches_at, push_all};

verus! {

/// Hard upper bound, in bytes, of one HTTP response.
pub const MAX_RESPONSE_SIZE: usize = 4096;

/// Why a response was refused.
#[derive(Clone, Copy, Debug, PartialEq, Eq, Structural)]
pub enum HttpResponseError {
    /// The response grew past [`MAX_RESPONSE_SIZE`].
    OversizeResponse,
    /// The status line is not the expected success status.
    UnexpectedStatus,
    /// A content-length header does not hold a plain decimal number.
    MalformedHeaders,
    /// The declared body would not fit the buffer.
    OversizeBody,
    /// The response announces a transfer encoding this reader does not
    /// support.
    UnsupportedTransferEncoding,
}

/// The blank line that separates headers from body.
pub open spec fn header_delimiter() -> Seq<u8> {
    seq![13u8, 10u8, 13u8, 10u8]
}

/// The bytes of the accepted status line.
pub open spec fn http_ok_status() -> Seq<u8> {
    seq![72u8, 84u8, 84u8, 80u8, 47u8, 49u8, 46u8, 49u8, 32u8, 50u8, 48u8, 48u8, 32u8, 79u8, 75u8]
}

/// The bytes of the content-length header name, colon and space included.
pub open spec fn content_length_prefix() -> Seq<u8> {
    seq![
        67u8,
        111u8,
        110u8,
        116u8,
        101u8,
        110u8,
        116u8,
        45u8,
        76u8,
        101u8,
        110u8,
        103u8,
        116u8,
        104u8,
        58u8,
        32u8,
    ]
}

/// The bytes of the transfer-encoding header name, colon and space
/// included.
pub open spec fn transfer_encoding_prefix() -> Seq<u8> {
    seq![
        84u8,
        114u8,
        97u8,
        110u8,
        115u8,
        102u8,
        101u8,
        114u8,
        45u8,
        69u8,
        110u8,
        99u8,
        111u8,
        100u8,
        105u8,
        110u8,
        103u8,
        58u8,
        32u8,
    ]
}

/// Whether `s` begins with `prefix`.
pub open spec fn starts_with(s: Seq<u8>, prefix: Seq<u8>) -> bool {
    s.len() >= prefix.len() && s.subrange(0, prefix.len() as int) == prefix
}

/// The position of the first line break at or after `from`, or the end of
/// the buffer if none is left.
pub open spec fn next_break(b: Seq<u8>, from: int) -> int
    decreases b.len() - from,
{
    if from < 0 || from + 2 > b.len() {
        b.len() as int
    } else if b[from] == 13 && b[from + 1] == 10 {
        from
    } else {
        next_break(b, from + 1)
    }
}

/// The position of the first header delimiter at or after `from`, if any.
pub open spec fn find_delimiter(b: Seq<u8>, from: int) -> Option<int>
    decreases b.len() - from,
{
    if from < 0 || from + 4 > b.len() {
        None
    } else if b.subrange(from, from + 4) == header_delimiter() {
        Some(from)
    } else {
        find_delimiter(b, from + 1)
    }
}

/// Whether `s` is one or more decimal digits.
pub open spec fn digits_ok(s: Seq<u8>) -> bool {
    s.len() > 0 && forall|i: int| 0 <= i < s.len() ==> 48 <= #[trigger] s[i] <= 57
}

/// The number a string of decimal digits denotes.
pub open spec fn dec_value(s: Seq<u8>) -> nat
    decreases s.len(),
{
    if s.len() == 0 {
        0
    } else {
        dec_value(s.drop_last()) * 10 + (s.last() - 48) as nat
    }
}

/// The outcome of reading the header lines of `b` from `from` on, with
/// `current` the content length seen so far and `cap` the most the buffer
/// can still hold: the declared content length, or the error the headers
/// are refused with. A later content-length header overrides an earlier
/// one, as the last assignment wins.
pub open spec fn scan_headers(b: Seq<u8>, from: int, current: nat, cap: nat) -> Result<
    nat,
    HttpResponseError,
>
    decreases b.len() - from,
{
    if from >= b.len() {
        Ok(current)
    } else {
        let e0 = next_break(b, from);
        let e = if e0 < from || e0 > b.len() {
            b.len() as int
        } else {
            e0
        };
        let line = b.subrange(from, e);
        let next = if e + 2 <= b.len() {
            e + 2
        } else {
            b.len() as int
        };
        if starts_with(line, content_length_prefix()) {
            let ds = line.skip(content_length_prefix().len() as int);
            if !digits_ok(ds) {
                Err(HttpResponseError::MalformedHeaders)
            } else if dec_value(ds) > cap {
                Err(HttpResponseError::OversizeBody)
            } else {
                scan_headers(b, next, dec_value(ds), cap)
            }
        } else if starts_with(line, transfer_encoding_prefix()) {
            Err(HttpResponseError::UnsupportedTransferEncoding)
        } else {
            scan_headers(b, next, current, cap)
        }
    }
}

/// The outcome of parsing a whole header region: the status line must be
/// the accepted one, then the header lines are read as [`scan_headers`]
/// says, starting with a content length of zero.
pub open spec fn parse_headers_spec(region: Seq<u8>, cap: nat) -> Result<nat, HttpResponseError> {
    let e0 = next_break(region, 0);
    let e = if e0 < 0 || e0 > region.len() {
        region.len() as int
    } else {
        e0
    };
    if region.subrange(0, e) != http_ok_status() {
        Err(HttpResponseError::UnexpectedStatus)
    } else {
        let next = if e + 2 <= region.len() {
            e + 2
        } else {
            region.len() as int
        };
        scan_headers(region, next, 0, cap)
    }
}

/// Encodes [`http_ok_status`].
fn status_bytes() -> (r: Vec<u8>)
    ensures
        r@ == http_ok_status(),
{
    let v = vec![72u8, 84u8, 84u8, 80u8, 47u8, 49u8, 46u8, 49u8, 32u8, 50u8, 48u8, 48u8, 32u8, 79u8, 75u8];
    proof {
        assert(v@ =~= http_ok_status());
    }
    v
}

/// Encodes [`content_length_prefix`].
fn content_length_bytes() -> (r: Vec<u8>)
    ensures
        r@ == content_length_prefix(),
{
    let v = vec![67u8, 111u8, 110u8, 116u8, 101u8, 110u8, 116u8, 45u8, 76u8, 101u8, 110u8, 103u8, 116u8, 104u8, 58u8, 32u8];
    proof {
        assert(v@ =~= content_length_prefix());
    }
    v
}

/// Encodes [`transfer_encoding_prefix`].
fn transfer_encoding_bytes() -> (r: Vec<u8>)
    ensures
        r@ == transfer_encoding_prefix(),
{
    let v = vec![84u8, 114u8, 97u8, 110u8, 115u8, 102u8, 101u8, 114u8, 45u8, 69u8, 110u8, 99u8, 111u8, 100u8, 105u8, 110u8, 103u8, 58u8, 32u8];
    proof {
        assert(v@ =~= transfer_encoding_prefix());
    }
    v
}

/// Encodes [`header_delimiter`].
fn delimiter_bytes() -> (r: Vec<u8>)
    ensures
        r@ == header_delimiter(),
{
    let v = vec![13u8, 10u8, 13u8, 10u8];
    proof {
        assert(v@ =~= header_delimiter());
    }
    v
}

/// Locates the first line break in `buf[from..end]`, as [`next_break`]
/// over that region does.
fn find_break_in(buf: &Vec<u8>, from: usize, end: usize) -> (r: usize)
    requires
        from <= end,
        end <= buf@.len(),
    ensures
        r == next_break(buf@.subrange(0, end as int), from as int),
        from <= r <= end,
{
    let ghost region = buf@.subrange(0, end as int);
    let mut i: usize = from;
    while end >= 2 && i <= end - 2
        invariant
            from <= i <= end,
            end <= buf@.len(),
            region == buf@.subrange(0, end as int),
            next_break(region, from as int) == next_break(region, i as int),
        decreases end - i,
    {
        if buf[i] == 13 && buf[i + 1] == 10 {
            proof {
                assert(region[i as int] == 13 && region[i as int + 1] == 10);
                assert(next_break(region, i as int) == i);
            }
            return i;
        }
        proof {
            assert(region[i as int] == buf@[i as int]);
            assert(next_break(region, i as int) == next_break(region, i as int + 1));
        }
        i += 1;
    }
    proof {
        assert(next_break(region, i as int) == end);
    }
    end
}

/// Buffered reader for one short HTTP response: the raw bytes read so far,
/// where the body starts once the header delimiter was seen, and the
/// content length once the headers parsed.
pub struct ResponseReader {
    /// The raw bytes read so far.
    pub buffer: Vec<u8>,
    /// Index just past the header delimiter, once it was found.
    pub body_offset: Option<usize>,
    /// The declared body length, once the headers parsed.
    pub content_length: usize,
}

impl ResponseReader {
    /// The buffer stays within its bound and the body offset, once found,
    /// points into it.
    pub open spec fn wf(&self) -> bool {
        &&& self.buffer@.len() <= MAX_RESPONSE_SIZE
        &&& match self.body_offset {
            Some(o) => o <= self.buffer@.len(),
            None => true,
        }
    }

    /// An empty reader.
    pub fn new() -> (r: ResponseReader)
        ensures
            r.buffer@ == Seq::<u8>::empty(),
            r.body_offset is None,
            r.content_length == 0,
            r.wf(),
    {
        ResponseReader { buffer: Vec::new(), body_offset: None, content_length: 0 }
    }

    /// Appends one chunk read from the transport, refusing growth past
    /// [`MAX_RESPONSE_SIZE`].
    pub fn append(&mut self, chunk: &[u8]) -> (r: Result<(), HttpResponseError>)
        requires
            old(self).wf(),
        ensures
            final(self).wf(),
            final(self).body_offset == old(self).body_offset,
            final(self).content_length == old(self).content_length,
            old(self).buffer@.len() + chunk@.len() <= MAX_RESPONSE_SIZE ==> r == Ok::<
                (),
                HttpResponseError,
            >(()) && final(self).buffer@ == old(self).buffer@ + chunk@,
            old(self).buffer@.len() + chunk@.len() > MAX_RESPONSE_SIZE ==> r == Err::<
                (),
                HttpResponseError,
            >(HttpResponseError::OversizeResponse) && final(self).buffer@ == old(self).buffer@,
    {
        if chunk.len() > MAX_RESPONSE_SIZE - self.buffer.len() {
            return Err(HttpResponseError::OversizeResponse);
        }
        push_all(&mut self.buffer, chunk);
        Ok(())
    }

    /// Scans for the blank line that ends the headers and records where the
    /// body begins. Returns whether it was found.
    pub fn scan_body_offset(&mut self) -> (r: bool)
        requires
            old(self).wf(),
        ensures
            final(self).wf(),
            final(self).buffer == old(self).buffer,
            final(self).content_length == old(self).content_length,
            match find_delimiter(old(self).buffer@, 0) {
                Some(i) => r == true && final(self).body_offset == Some((i + 4) as usize),
                None => r == false && final(self).body_offset == old(self).body_offset,
            },
    {
        let ghost b = self.buffer@;
        let n = self.buffer.len();
        let delim = delimiter_bytes();
        let mut i: usize = 0;
        while n >= 4 && i <= n - 4
            invariant
                i <= n,
                n == b.len(),
                b == old(self).buffer@,
                self.buffer == old(self).buffer,
                self.body_offset == old(self).body_offset,
                self.content_length == old(self).content_length,
                self.wf(),
                delim@ == header_delimiter(),
                find_delimiter(b, 0) == find_delimiter(b, i as int),
            decreases n - i,
        {
            if bytes_match_at(self.buffer.as_slice(), i, delim.as_slice()) {
                proof {
                    assert(b.subrange(i as int, i as int + 4) == header_delimiter());
                    assert(find_delimiter(b, i as int) == Some(i as int));
                }
                self.body_offset = Some(i + 4);
                return true;
            }
            proof {
                assert(!matches_at(b, i as int, header_delimiter()));
                assert(b.subrange(i as int, i as int + 4) != header_delimiter());
                assert(find_delimiter(b, i as int) == find_delimiter(b, i as int + 1));
            }
            i += 1;
        }
        proof {
            assert(find_delimiter(b, i as int) is None);
        }
        false
    }

    /// Whether the declared body has fully arrived.
    pub fn body_complete(&self) -> (r: bool)
        requires
            self.wf(),
        ensures
            r == match self.body_offset {
                Some(o) => o + self.content_length <= self.buffer@.len(),
                None => false,
            },
    {
        match self.body_offset {
            Some(o) => self.buffer.len() - o >= self.content_length,
            None => false,
        }
    }

    /// Parses the header region — everything up to and including the blank
    /// line: the status line must be the accepted success status, the last
    /// content-length header must hold a plain decimal number that fits the
    /// remaining buffer, and a transfer-encoding header is refused.
    pub fn parse_headers(&mut self) -> (r: Result<(), HttpResponseError>)
        requires
            old(self).wf(),
            old(self).body_offset is Some,
        ensures
            final(self).wf(),
            final(self).buffer == old(self).buffer,
            final(self).body_offset == old(self).body_offset,
            ({
                let region = old(self).buffer@.subrange(0, old(self).body_offset->0 as int);
                let cap = (MAX_RESPONSE_SIZE - old(self).body_offset->0) as nat;
                match parse_headers_spec(region, cap) {
                    Ok(n) => r == Ok::<(), HttpResponseError>(()) && final(self).content_length
                        == n,
                    Err(e) => r == Err::<(), HttpResponseError>(e) && final(self).content_length
                        == old(self).content_length,
                }
            }),
    {
        let offset = match self.body_offset {
            Some(o) => o,
            None => {
                proof {
                    assert(false);
                }
                0
            },
        };
        let ghost region = self.buffer@.subrange(0, offset as int);
        let cap: usize = MAX_RESPONSE_SIZE - offset;
        let ghost capv = cap as nat;
        let e = find_break_in(&self.buffer, 0, offset);
        let status = status_bytes();
        let status_match = bytes_match_at(self.buffer.as_slice(), 0, status.as_slice());
        if e != 15 || !status_match {
            proof {
                if e == 15 {
                    assert(region.subrange(0, 15) =~= self.buffer@.subrange(0, 15));
                    assert(region.subrange(0, e as int) != http_ok_status());
                } else {
                    assert(region.subrange(0, e as int).len() != 15);
                    assert(region.subrange(0, e as int) != http_ok_status());
                }
            }
            return Err(HttpResponseError::UnexpectedStatus);
        }
        proof {
            assert(region.subrange(0, 15) =~= self.buffer@.subrange(0, 15));
            assert(region.subrange(0, e as int) == http_ok_status());
        }
        let mut pos: usize = if e + 2 <= offset {
            e + 2
        } else {
            offset
        };
        let mut current: usize = 0;
        proof {
            assert(parse_headers_spec(region, capv) == scan_headers(region, pos as int, 0, capv));
        }
        let clp = content_length_bytes();
        let tep = transfer_encoding_bytes();
        while pos < offset
            invariant
                old(self).body_offset == Some(offset),
                pos <= offset,
                offset <= self.buffer@.len(),
                offset <= MAX_RESPONSE_SIZE,
                cap == MAX_RESPONSE_SIZE - offset,
                capv == cap as nat,
                self.buffer == old(self).buffer,
                self.body_offset == old(self).body_offset,
                self.content_length == old(self).content_length,
                self.wf(),
                region == old(self).buffer@.subrange(0, offset as int),
                clp@ == content_length_prefix(),
                tep@ == transfer_encoding_prefix(),
                parse_headers_spec(region, capv) == scan_headers(
                    region,
                    pos as int,
                    current as nat,
                    capv,
                ),
            decreases offset - pos,
        {
            let ghost current0 = current;
            let e2 = find_break_in(&self.buffer, pos, offset);
            let ghost line = region.subrange(pos as int, e2 as int);
            let is_cl = e2 - pos >= 16 && bytes_match_at(
                self.buffer.as_slice(),
                pos,
                clp.as_slice(),
            );
            proof {
                if e2 - pos >= 16 {
                    assert(line.subrange(0, 16) =~= self.buffer@.subrange(pos as int, pos + 16));
                }
                assert(is_cl == starts_with(line, content_length_prefix()));
            }
            if is_cl {
                let ds_start = pos + 16;
                let ghost ds = line.skip(16);
                proof {
                    assert(ds =~= region.subrange(ds_start as int, e2 as int));
                }
                if ds_start == e2 {
                    proof {
                        assert(!digits_ok(ds));
                        assert(scan_headers(region, pos as int, current as nat, capv) == Err::<
                            nat,
                            HttpResponseError,
                        >(HttpResponseError::MalformedHeaders));
                    }
                    return Err(HttpResponseError::MalformedHeaders);
                }
                let mut j: usize = ds_start;
                let mut val: usize = 0;
                let mut over = false;
                while j < e2
                    invariant
                        old(self).body_offset == Some(offset),
                        ds_start <= j <= e2,
                        ds_start == pos + 16,
                        pos <= e2 <= offset,
                        offset <= self.buffer@.len(),
                        offset <= MAX_RESPONSE_SIZE,
                        cap == MAX_RESPONSE_SIZE - offset,
                        capv == cap as nat,
                        self.buffer == old(self).buffer,
                        self.body_offset == old(self).body_offset,
                        self.content_length == old(self).content_length,
                        self.wf(),
                        region == old(self).buffer@.subrange(0, offset as int),
                        e2 as int == next_break(region, pos as int),
                        line == region.subrange(pos as int, e2 as int),
                        starts_with(line, content_length_prefix()),
                        ds == line.skip(16),
                        ds == region.subrange(ds_start as int, e2 as int),
                        parse_headers_spec(region, capv) == scan_headers(
                            region,
                            pos as int,
                            current as nat,
                            capv,
                        ),
                        forall|k: int| ds_start <= k < j ==> 48 <= #[trigger] region[k] <= 57,
                        !over ==> val as nat == dec_value(
                            region.subrange(ds_start as int, j as int),
                        ) && val <= MAX_RESPONSE_SIZE,
                        over ==> dec_value(region.subrange(ds_start as int, j as int))
                            > MAX_RESPONSE_SIZE,
                    decreases e2 - j,
                {
                    let d = self.buffer[j];
                    proof {
                        assert(region[j as int] == self.buffer@[j as int]);
                    }
                    if d < 48 || d > 57 {
                        proof {
                            assert(ds[j - ds_start] == region[j as int]);
                            assert(!digits_ok(ds));
                            assert(scan_headers(region, pos as int, current as nat, capv) == Err::<
                                nat,
                                HttpResponseError,
                            >(HttpResponseError::MalformedHeaders));
                        }
                        return Err(HttpResponseError::MalformedHeaders);
                    }
                    proof {
                        let prev = region.subrange(ds_start as int, j as int);
                        let curq = region.subrange(ds_start as int, j + 1);
                        assert(curq.drop_last() =~= prev);
                        assert(curq.last() == region[j as int]);
                        assert(dec_value(curq) == dec_value(prev) * 10 + (region[j as int]
                            - 48) as nat);
                    }
                    if over {
                        proof {
                            let prev = region.subrange(ds_start as int, j as int);
                            assert(dec_value(prev) * 10 >= dec_value(prev));
                        }
                    } else {
                        let nv = val * 10 + ((d - 48) as usize);
                        if nv > MAX_RESPONSE_SIZE {
                            over = true;
                        } else {
                            val = nv;
                        }
                    }
                    j += 1;
                }
                proof {
                    assert(ds == region.subrange(ds_start as int, j as int));
                    assert(digits_ok(ds));
                }
                if over {
                    proof {
                        assert(dec_value(ds) > capv);
                        assert(scan_headers(region, pos as int, current as nat, capv) == Err::<
                            nat,
                            HttpResponseError,
                        >(HttpResponseError::OversizeBody));
                    }
                    return Err(HttpResponseError::OversizeBody);
                }
                if val > cap {
                    proof {
                        assert(dec_value(ds) > capv);
                        assert(scan_headers(region, pos as int, current as nat, capv) == Err::<
                            nat,
                            HttpResponseError,
                        >(HttpResponseError::OversizeBody));
                    }
                    return Err(HttpResponseError::OversizeBody);
                }
                current = val;
            } else {
                let is_te = e2 - pos >= 19 && bytes_match_at(
                    self.buffer.as_slice(),
                    pos,
                    tep.as_slice(),
                );
                proof {
                    if e2 - pos >= 19 {
                        assert(line.subrange(0, 19) =~= self.buffer@.subrange(
                            pos as int,
                            pos + 19,
                        ));
                    }
                    assert(is_te == starts_with(line, transfer_encoding_prefix()));
                }
                if is_te {
                    proof {
                        assert(scan_headers(region, pos as int, current as nat, capv) == Err::<
                            nat,
                            HttpResponseError,
                        >(HttpResponseError::UnsupportedTransferEncoding));
                    }
                    return Err(HttpResponseError::UnsupportedTransferEncoding);
                }
            }
            let newpos = if e2 + 2 <= offset {
                e2 + 2
            } else {
                offset
            };
            proof {
                assert(scan_headers(region, pos as int, current0 as nat, capv) == scan_headers(
                    region,
                    newpos as int,
                    current as nat,
                    capv,
                ));
            }
            pos = newpos;
        }
        proof {
            assert(scan_headers(region, pos as int, current as nat, capv) == Ok::<
                nat,
                HttpResponseError,
            >(current as nat));
        }
        self.content_length = current;
        Ok(())
    }

    /// The body bytes read so far: everything past the header delimiter.
    pub fn take_body(self) -> (r: Vec<u8>)
        requires
            self.wf(),
            self.body_offset is Some,
        ensures
            r@ == self.buffer@.skip(self.body_offset->0 as int),
    {
        let offset = match self.body_offset {
            Some(o) => o,
            None => {
                proof {
                    assert(false);
                }
                0
            },
        };
        let r = copy_range(self.buffer.as_slice(), offset, self.buffer.len());
        proof {
            assert(self.buffer@.subrange(offset as int, self.buffer@.len() as int) =~= self
                .buffer@.skip(offset as int));
        }
        r
    }
}

} // verus!
