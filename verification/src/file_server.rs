//! Request handling of the local video file server: reading the request
//! head, choosing the byte range to serve, the response header, and the
//! bookkeeping of the body transfer.
use vstd::prelude::*;
use vstd::utf8::{decode_utf8, valid_utf8};
use crate::http_range::{parse_range, spec_parse_range};
use crate::text::{append_decimal, chars_of, decimal, find_char, find_in, lemma_find_char, string_of};

verus! {

/// The largest body sent in one response: 4 MiB.
pub const MAX_RESPONSE_BYTES: u64 = 4194304;

/// The size of one read from the video file while streaming a body: 64 KiB.
pub const STREAM_CHUNK_BYTES: usize = 65536;

/// `line` without one trailing carriage return.
pub open spec fn strip_cr(line: Seq<char>) -> Seq<char> {
    if line.len() > 0 && line.last() == '\r' {
        line.drop_last()
    } else {
        line
    }
}

/// The lines of `s` as `str::lines` yields them: split after each `\n`, the
/// `\n` (and a `\r` before it) removed, with no empty last line.
pub open spec fn split_lines(s: Seq<char>) -> Seq<Seq<char>>
    decreases s.len(),
{
    if s.len() == 0 {
        seq![]
    } else {
        match find_char(s, '\n') {
            None => seq![s],
            Some(k) => {
                proof {
                    lemma_find_char(s, '\n');
                }
                seq![strip_cr(s.take(k))] + split_lines(s.skip(k + 1))
            },
        }
    }
}

/// ASCII lower-casing of one character (`char::to_ascii_lowercase`).
pub open spec fn ascii_lower(c: char) -> char {
    if 65 <= (c as u32) <= 90 {
        ((c as u32) + 32) as char
    } else {
        c
    }
}

/// Whether `line`, lower-cased in ASCII, starts with `range:`.
pub open spec fn is_range_line(line: Seq<char>) -> bool {
    &&& line.len() >= 6
    &&& ascii_lower(line[0]) == 'r'
    &&& ascii_lower(line[1]) == 'a'
    &&& ascii_lower(line[2]) == 'n'
    &&& ascii_lower(line[3]) == 'g'
    &&& ascii_lower(line[4]) == 'e'
    &&& ascii_lower(line[5]) == ':'
}

/// The first line of `lines` that is a `Range` header line.
pub open spec fn first_range_line(lines: Seq<Seq<char>>) -> Option<Seq<char>>
    decreases lines.len(),
{
    if lines.len() == 0 {
        None
    } else if is_range_line(lines[0]) {
        Some(lines[0])
    } else {
        first_range_line(lines.drop_first())
    }
}

/// Whether the request line starts with `HEAD `.
pub open spec fn is_head_line(line: Seq<char>) -> bool {
    line.len() >= 5 && line[0] == 'H' && line[1] == 'E' && line[2] == 'A' && line[3] == 'D'
        && line[4] == ' '
}

/// The request line of a request text: its first line, or `?` where it has none.
pub open spec fn request_line_of(text: Seq<char>) -> Seq<char> {
    let lines = split_lines(text);
    if lines.len() > 0 {
        lines[0]
    } else {
        seq!['?']
    }
}

/// What `String::from_utf8_lossy` makes of `bytes`.
pub uninterp spec fn utf8_lossy(bytes: Seq<u8>) -> Seq<char>;

/// `String::from_utf8_lossy`: decodes `bytes`, with U+FFFD in place of each
/// invalid sequence. Stated: the result is a function of the bytes alone, and
/// valid UTF-8 is decoded as it stands. Not stated: which replacement
/// characters invalid input gets.
#[verifier::external_body]
fn decode_lossy(bytes: &[u8]) -> (s: String)
    ensures
        s@ == utf8_lossy(bytes@),
        valid_utf8(bytes@) ==> s@ == decode_utf8(bytes@),
{
    String::from_utf8_lossy(bytes).into_owned()
}

/// What the server reads from a request: its first line, whether it is a
/// `HEAD` request, and its first `Range` header line.
pub struct RequestHead {
    pub request_line: String,
    pub is_head: bool,
    pub range_line: Option<String>,
}

/// The request head of the request text `text`.
pub open spec fn request_head_of(
    text: Seq<char>,
    request_line: Seq<char>,
    is_head: bool,
    range_line: Option<Seq<char>>,
) -> bool {
    &&& request_line == request_line_of(text)
    &&& is_head == is_head_line(request_line_of(text))
    &&& range_line == first_range_line(split_lines(text))
}

/// `first_range_line` of a concatenation looks in the second part only when
/// the first has none.
proof fn lemma_first_range_line_concat(a: Seq<Seq<char>>, b: Seq<Seq<char>>)
    ensures
        first_range_line(a + b) == match first_range_line(a) {
            Some(l) => Some(l),
            None => first_range_line(b),
        },
    decreases a.len(),
{
    if a.len() > 0 {
        assert((a + b).drop_first() =~= a.drop_first() + b);
        assert((a + b)[0] == a[0]);
        lemma_first_range_line_concat(a.drop_first(), b);
    } else {
        assert(a + b =~= b);
    }
}

/// Whether `v[from..to]` is a `Range` header line.
fn is_range_line_in(v: &Vec<char>, from: usize, to: usize) -> (b: bool)
    requires
        from <= to <= v@.len(),
    ensures
        b == is_range_line(v@.subrange(from as int, to as int)),
{
    if to - from < 6 {
        return false;
    }
    let ghost l = v@.subrange(from as int, to as int);
    let c0 = lower(v[from]);
    let c1 = lower(v[from + 1]);
    let c2 = lower(v[from + 2]);
    let c3 = lower(v[from + 3]);
    let c4 = lower(v[from + 4]);
    let c5 = lower(v[from + 5]);
    assert(l[0] == v@[from as int] && l[1] == v@[from + 1] && l[2] == v@[from + 2] && l[3]
        == v@[from + 3] && l[4] == v@[from + 4] && l[5] == v@[from + 5]);
    c0 == 'r' && c1 == 'a' && c2 == 'n' && c3 == 'g' && c4 == 'e' && c5 == ':'
}

/// ASCII lower-casing of one character.
fn lower(c: char) -> (r: char)
    ensures
        r == ascii_lower(c),
{
    let u = c as u32;
    if 65 <= u && u <= 90 {
        let l = (u + 32) as u8;
        let r = l as char;
        assert(r as u32 == u + 32);
        r
    } else {
        c
    }
}

/// Reads the head of a request of which `text` is the decoded text.
pub fn request_head_of_text(text: &str) -> (h: RequestHead)
    ensures
        request_head_of(
            text@,
            h.request_line@,
            h.is_head,
            match h.range_line {
                Some(l) => Some(l@),
                None => None,
            },
        ),
{
    let v = chars_of(text);
    let n = v.len();
    let ghost s = text@;
    let ghost mut done: Seq<Seq<char>> = seq![];
    let mut first: Option<String> = None;
    let mut range: Option<String> = None;
    let mut pos: usize = 0;
    assert(s.skip(0) =~= s);
    while pos < n
        invariant
            v@ == s,
            n == s.len(),
            pos <= n,
            split_lines(s) == done + split_lines(s.skip(pos as int)),
            done.len() == 0 ==> first is None,
            done.len() > 0 ==> (first matches Some(f) && f@ == done[0]),
            match range {
                Some(r) => first_range_line(done) == Some(r@),
                None => first_range_line(done) is None,
            },
        decreases n - pos,
    {
        let ghost rest = s.skip(pos as int);
        assert(v@.subrange(pos as int, n as int) =~= rest);
        let k = find_in(&v, pos, n, '\n');
        proof {
            lemma_find_char(rest, '\n');
        }
        let (end, next) = match k {
            Some(k) => {
                let e = if k > pos && v[k - 1] == '\r' {
                    k - 1
                } else {
                    k
                };
                proof {
                    let line = rest.take(k - pos);
                    assert(v@.subrange(pos as int, e as int) =~= strip_cr(line));
                    assert(s.skip(k + 1) =~= rest.skip(k - pos + 1));
                    assert(split_lines(rest) == seq![strip_cr(line)] + split_lines(
                        rest.skip(k - pos + 1),
                    ));
                }
                (e, k + 1)
            },
            None => {
                proof {
                    assert(split_lines(rest) == seq![rest]);
                    assert(v@.subrange(pos as int, n as int) =~= rest);
                    assert(s.skip(n as int) =~= Seq::<char>::empty());
                    assert(split_lines(s.skip(n as int)) =~= Seq::<Seq<char>>::empty());
                }
                (n, n)
            },
        };
        let ghost line = v@.subrange(pos as int, end as int);
        assert(split_lines(rest) == seq![line] + split_lines(s.skip(next as int)));
        if first.is_none() {
            first = Some(string_of(&v, pos, end));
        }
        if range.is_none() && is_range_line_in(&v, pos, end) {
            range = Some(string_of(&v, pos, end));
        }
        proof {
            lemma_first_range_line_concat(done, seq![line]);
            assert(first_range_line(seq![line]) == if is_range_line(line) {
                Some(line)
            } else {
                None::<Seq<char>>
            }) by {
                assert(seq![line].drop_first() =~= Seq::<Seq<char>>::empty());
                assert(seq![line][0] == line);
                assert(first_range_line(Seq::<Seq<char>>::empty()) is None);
            }
            assert(done + split_lines(rest) =~= done.push(line) + split_lines(s.skip(next as int)));
            assert(done + seq![line] =~= done.push(line));
            done = done.push(line);
        }
        pos = next;
    }
    assert(s.skip(n as int) =~= Seq::<char>::empty());
    assert(split_lines(s.skip(n as int)) =~= Seq::<Seq<char>>::empty());
    assert(split_lines(s) =~= done);
    let request_line = match first {
        Some(f) => f,
        None => {
            let q = "?".to_owned();
            proof {
                reveal_strlit("?");
                assert(q@ =~= seq!['?']);
            }
            q
        },
    };
    let rv = chars_of(request_line.as_str());
    let is_head = rv.len() >= 5 && rv[0] == 'H' && rv[1] == 'E' && rv[2] == 'A' && rv[3] == 'D'
        && rv[4] == ' ';
    RequestHead { request_line, is_head, range_line: range }
}

/// Decodes the bytes of a request (lossily, as UTF-8) and reads its head.
pub fn read_request_head(bytes: &[u8]) -> (h: RequestHead)
    ensures
        request_head_of(
            utf8_lossy(bytes@),
            h.request_line@,
            h.is_head,
            match h.range_line {
                Some(l) => Some(l@),
                None => None,
            },
        ),
{
    let text = decode_lossy(bytes);
    request_head_of_text(text.as_str())
}

/// The inclusive byte range a request asks for: the range of its `Range`
/// line, or the whole file where it has none.
pub fn requested_range(head: &RequestHead, file_size: u64) -> (r: (u64, u64))
    requires
        file_size > 0,
    ensures
        r == match head.range_line {
            Some(l) => spec_parse_range(l@, file_size),
            None => (0u64, (file_size - 1) as u64),
        },
        r.0 < file_size,
        r.1 < file_size,
{
    match &head.range_line {
        Some(l) => parse_range(l.as_str(), file_size),
        None => (0, file_size - 1),
    }
}

/// What one response sends: the status (206 or 200), the inclusive byte
/// range of the body, its length, and the file size.
#[derive(Clone, Copy, PartialEq, Eq, Structural, Debug)]
pub struct ResponsePlan {
    pub partial: bool,
    pub start: u64,
    pub end: u64,
    pub length: u64,
    pub size: u64,
}

/// The response to a request for `start..=end` of a file of `size` bytes:
/// the range is cut to `MAX_RESPONSE_BYTES`, and the status is 206 wherever
/// the request had a `Range` line or the body is shorter than the file.
pub open spec fn spec_plan_response(has_range: bool, start: u64, end: u64, size: u64) -> ResponsePlan
    recommends
        start <= end < size,
{
    let end2 = if end - start + 1 > MAX_RESPONSE_BYTES {
        (start + MAX_RESPONSE_BYTES - 1) as u64
    } else {
        end
    };
    let length = (end2 - start + 1) as u64;
    ResponsePlan { partial: has_range || length < size, start, end: end2, length, size }
}

/// Plans the response to a request for `start..=end` of a file of `size` bytes.
pub fn plan_response(has_range: bool, start: u64, end: u64, size: u64) -> (p: ResponsePlan)
    requires
        start <= end < size,
    ensures
        p == spec_plan_response(has_range, start, end, size),
        p.start <= p.end <= end,
        p.length == p.end - p.start + 1,
        1 <= p.length <= MAX_RESPONSE_BYTES,
{
    let mut end2 = end;
    if end - start + 1 > MAX_RESPONSE_BYTES {
        end2 = start + MAX_RESPONSE_BYTES - 1;
    }
    let length = end2 - start + 1;
    ResponsePlan { partial: has_range || length < size, start, end: end2, length, size }
}

impl ResponsePlan {
    /// The HTTP status code of the response.
    pub fn status_code(&self) -> (code: u16)
        ensures
            code == if self.partial {
                206u16
            } else {
                200u16
            },
    {
        if self.partial {
            206
        } else {
            200
        }
    }
}

/// The header text of a planned response.
pub open spec fn response_header(p: ResponsePlan) -> Seq<char> {
    if p.partial {
        "HTTP/1.1 206 Partial Content\r\nContent-Type: video/mp4\r\nContent-Length: "@ + decimal(
            p.length as nat,
        ) + "\r\nContent-Range: bytes "@ + decimal(p.start as nat) + "-"@ + decimal(p.end as nat)
            + "/"@ + decimal(p.size as nat) + "\r\nAccept-Ranges: bytes\r\n\r\n"@
    } else {
        "HTTP/1.1 200 OK\r\nContent-Type: video/mp4\r\nContent-Length: "@ + decimal(p.size as nat)
            + "\r\nAccept-Ranges: bytes\r\n\r\n"@
    }
}

/// Writes the header of a planned response.
pub fn response_header_text(p: &ResponsePlan) -> (h: String)
    ensures
        h@ == response_header(*p),
{
    let mut h = String::new();
    if p.partial {
        h.append("HTTP/1.1 206 Partial Content\r\nContent-Type: video/mp4\r\nContent-Length: ");
        append_decimal(&mut h, p.length);
        h.append("\r\nContent-Range: bytes ");
        append_decimal(&mut h, p.start);
        h.append("-");
        append_decimal(&mut h, p.end);
        h.append("/");
        append_decimal(&mut h, p.size);
        h.append("\r\nAccept-Ranges: bytes\r\n\r\n");
    } else {
        h.append("HTTP/1.1 200 OK\r\nContent-Type: video/mp4\r\nContent-Length: ");
        append_decimal(&mut h, p.size);
        h.append("\r\nAccept-Ranges: bytes\r\n\r\n");
    }
    assert(h@ =~= response_header(*p));
    h
}

/// Progress of sending one response body: bytes sent and bytes still owed.
pub struct BodyTransfer {
    pub sent: u64,
    pub remaining: u64,
}

impl BodyTransfer {
    /// A transfer of a body of `length` bytes, none sent yet.
    pub fn new(length: u64) -> (t: BodyTransfer)
        ensures
            t.sent == 0,
            t.remaining == length,
    {
        BodyTransfer { sent: 0, remaining: length }
    }

    /// How many bytes the next read from the file asks for, with a buffer
    /// of `buffer_len` bytes: the smaller of what is owed and the buffer.
    pub fn next_read_len(&self, buffer_len: usize) -> (n: usize)
        requires
            self.remaining <= MAX_RESPONSE_BYTES,
        ensures
            n as int == if (self.remaining as int) < (buffer_len as int) {
                self.remaining as int
            } else {
                buffer_len as int
            },
    {
        let r = self.remaining as usize;
        if r < buffer_len {
            r
        } else {
            buffer_len
        }
    }

    /// Records that `n` more bytes were sent.
    pub fn record_sent(&mut self, n: u64)
        requires
            n <= old(self).remaining,
            old(self).sent + n <= u64::MAX,
        ensures
            final(self).sent == old(self).sent + n,
            final(self).remaining == old(self).remaining - n,
    {
        self.sent = self.sent + n;
        self.remaining = self.remaining - n;
    }

    /// Whether the whole body has been sent.
    pub fn is_done(&self) -> (b: bool)
        ensures
            b == (self.remaining == 0),
    {
        self.remaining == 0
    }
}

/// What happened last on a connection to the file server.
#[derive(PartialEq, Eq, Structural, Clone, Copy, Debug)]
pub enum ConnectionEvent {
    /// A read of the next request ended: the bytes read, or `None` where
    /// the read failed or timed out.
    RequestRead { len: Option<usize> },
    /// The response header was written (`ok`) or the write failed; `is_head`
    /// says whether the request was a `HEAD` request.
    HeaderSent { ok: bool, is_head: bool },
    /// The body was streamed; `ok` is false where writing to the client failed.
    BodySent { ok: bool },
}

/// What the connection does next.
#[derive(PartialEq, Eq, Structural, Clone, Copy, Debug)]
pub enum ConnectionStep {
    /// Wait for the next request on the same connection.
    ReadRequest,
    /// Answer the request just read.
    Respond,
    /// Stream the body of the response.
    SendBody,
    /// Close the connection.
    Close,
}

/// The next step of a connection: a failed or empty read closes it, as does
/// a failed write; a `HEAD` request gets no body; after a response the
/// connection stays open for the next request.
pub open spec fn spec_connection_step(e: ConnectionEvent) -> ConnectionStep {
    match e {
        ConnectionEvent::RequestRead { len } => match len {
            Some(n) => if n > 0 {
                ConnectionStep::Respond
            } else {
                ConnectionStep::Close
            },
            None => ConnectionStep::Close,
        },
        ConnectionEvent::HeaderSent { ok, is_head } => if !ok {
            ConnectionStep::Close
        } else if is_head {
            ConnectionStep::ReadRequest
        } else {
            ConnectionStep::SendBody
        },
        ConnectionEvent::BodySent { ok } => if ok {
            ConnectionStep::ReadRequest
        } else {
            ConnectionStep::Close
        },
    }
}

/// Decides the next step of a connection (see `spec_connection_step`).
pub fn connection_step(e: ConnectionEvent) -> (s: ConnectionStep)
    ensures
        s == spec_connection_step(e),
{
    match e {
        ConnectionEvent::RequestRead { len } => match len {
            Some(n) => if n > 0 {
                ConnectionStep::Respond
            } else {
                ConnectionStep::Close
            },
            None => ConnectionStep::Close,
        },
        ConnectionEvent::HeaderSent { ok, is_head } => if !ok {
            ConnectionStep::Close
        } else if is_head {
            ConnectionStep::ReadRequest
        } else {
            ConnectionStep::SendBody
        },
        ConnectionEvent::BodySent { ok } => if ok {
            ConnectionStep::ReadRequest
        } else {
            ConnectionStep::Close
        },
    }
}

/// The served range is the requested one cut to `MAX_RESPONSE_BYTES`: it
/// starts where asked and ends where asked when that fits, else exactly
/// `MAX_RESPONSE_BYTES` bytes after the start, wherever the start lies.
pub proof fn law_response_cut_to_limit(has_range: bool, start: u64, end: u64, size: u64)
    requires
        start <= end < size,
    ensures
        ({
            let p = spec_plan_response(has_range, start, end, size);
            &&& p.start == start
            &&& p.end == if end - start + 1 > MAX_RESPONSE_BYTES {
                start + MAX_RESPONSE_BYTES - 1
            } else {
                end as int
            }
            &&& p.length == if end - start + 1 > MAX_RESPONSE_BYTES {
                MAX_RESPONSE_BYTES as int
            } else {
                end - start + 1
            }
        }),
{
}

/// Every range the server answers with lies within the file, is never
/// longer than `MAX_RESPONSE_BYTES`, starts where the request asked, and is
/// announced with status 206 unless it is the whole file of a request
/// without a `Range` line.
pub proof fn law_response_within_file(has_range: bool, start: u64, end: u64, size: u64)
    requires
        start <= end < size,
    ensures
        ({
            let p = spec_plan_response(has_range, start, end, size);
            &&& p.start == start
            &&& p.start <= p.end < size
            &&& p.length == p.end - p.start + 1 <= MAX_RESPONSE_BYTES
            &&& (!p.partial <==> (!has_range && p.length == size))
            &&& (!p.partial ==> p.start == 0 && p.end == size - 1)
        }),
{
}

} // verus!
