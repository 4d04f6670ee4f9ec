use vstd::prelude::*;

verus! {

/// The largest body a frame may carry: 32 MiB.
pub const MAX_BODY: usize = 33554432;

pub const CR: u8 = 13;

pub const LF: u8 = 10;

/// One header line, `name: value`, as bytes.
pub struct Header {
    pub name: Vec<u8>,
    pub value: Vec<u8>,
}

pub struct HeaderView {
    pub name: Seq<u8>,
    pub value: Seq<u8>,
}

impl View for Header {
    type V = HeaderView;

    open spec fn view(&self) -> HeaderView {
        HeaderView { name: self.name@, value: self.value@ }
    }
}

/// A decoded frame: the headers other than `Content-Length`, and the body.
pub struct Frame {
    pub headers: Vec<Header>,
    pub body: Vec<u8>,
}

pub struct FrameView {
    pub headers: Seq<HeaderView>,
    pub body: Seq<u8>,
}

impl View for Frame {
    type V = FrameView;

    open spec fn view(&self) -> FrameView {
        FrameView { headers: headers_view(self.headers@), body: self.body@ }
    }
}

pub open spec fn headers_view(hs: Seq<Header>) -> Seq<HeaderView> {
    hs.map_values(|h: Header| h@)
}

/// The decimal digits of `n`, most significant first, without leading zeros.
pub open spec fn decimal(n: nat) -> Seq<u8>
    decreases n,
{
    if n < 10 {
        seq![(48 + n) as u8]
    } else {
        decimal(n / 10).push((48 + n % 10) as u8)
    }
}

/// `Content-Length`, as it is written.
pub open spec fn content_length_name() -> Seq<u8> {
    seq![67u8, 111u8, 110u8, 116u8, 101u8, 110u8, 116u8, 45u8, 76u8, 101u8, 110u8, 103u8, 116u8, 104u8]
}

pub open spec fn crlf() -> Seq<u8> {
    seq![CR, LF]
}

/// `name: value` followed by CRLF.
pub open spec fn header_line(h: HeaderView) -> Seq<u8> {
    h.name + seq![58u8, 32u8] + h.value + crlf()
}

pub open spec fn headers_bytes(hs: Seq<HeaderView>) -> Seq<u8>
    decreases hs.len(),
{
    if hs.len() == 0 {
        Seq::empty()
    } else {
        headers_bytes(hs.drop_last()) + header_line(hs.last())
    }
}

/// The bytes of a frame: the `Content-Length` line with the body's exact
/// byte length, the other headers, a blank line, and the body verbatim.
pub open spec fn encode_spec(hs: Seq<HeaderView>, body: Seq<u8>) -> Seq<u8> {
    header_line(HeaderView { name: content_length_name(), value: decimal(body.len()) })
        + headers_bytes(hs) + crlf() + body
}

pub(crate) fn append(out: &mut Vec<u8>, src: &[u8])
    ensures
        final(out)@ == old(out)@ + src@,
{
    let mut i: usize = 0;
    while i < src.len()
        invariant
            i <= src@.len(),
            out@ == old(out)@ + src@.subrange(0, i as int),
        decreases src@.len() - i,
    {
        out.push(src[i]);
        i = i + 1;
        assert(src@.subrange(0, i as int) =~= src@.subrange(0, i - 1).push(src@[i - 1]));
    }
    assert(src@.subrange(0, i as int) =~= src@);
}

pub(crate) fn push_decimal(out: &mut Vec<u8>, n: u64)
    ensures
        final(out)@ == old(out)@ + decimal(n as nat),
    decreases n,
{
    if n >= 10 {
        push_decimal(out, n / 10);
    }
    out.push((48 + n % 10) as u8);
    assert(out@ =~= old(out)@ + decimal(n as nat));
}

fn push_header_line(out: &mut Vec<u8>, name: &[u8], value: &[u8])
    ensures
        final(out)@ == old(out)@ + header_line(HeaderView { name: name@, value: value@ }),
{
    append(out, name);
    out.push(58u8);
    out.push(32u8);
    append(out, value);
    out.push(CR);
    out.push(LF);
    assert(out@ =~= old(out)@ + header_line(HeaderView { name: name@, value: value@ }));
}

fn content_length_bytes() -> (r: Vec<u8>)
    ensures
        r@ == content_length_name(),
{
    let r = vec![67u8, 111u8, 110u8, 116u8, 101u8, 110u8, 116u8, 45u8, 76u8, 101u8, 110u8, 103u8, 116u8, 104u8];
    assert(r@ =~= content_length_name());
    r
}

/// Frames `body` with its `Content-Length` and the given extra headers.
pub fn encode(headers: &Vec<Header>, body: &[u8]) -> (r: Vec<u8>)
    ensures
        r@ == encode_spec(headers_view(headers@), body@),
{
    let mut out: Vec<u8> = Vec::new();
    let name = content_length_bytes();
    let mut digits: Vec<u8> = Vec::new();
    push_decimal(&mut digits, body.len() as u64);
    assert(digits@ =~= decimal(body@.len()));
    push_header_line(&mut out, name.as_slice(), digits.as_slice());
    let ghost start = out@;
    let mut i: usize = 0;
    while i < headers.len()
        invariant
            i <= headers@.len(),
            out@ == start + headers_bytes(headers_view(headers@).take(i as int)),
        decreases headers@.len() - i,
    {
        let h = &headers[i];
        push_header_line(&mut out, h.name.as_slice(), h.value.as_slice());
        i = i + 1;
        assert(headers_view(headers@).take(i as int).drop_last() =~= headers_view(headers@).take(i - 1));
        assert(out@ =~= start + headers_bytes(headers_view(headers@).take(i as int)));
    }
    assert(headers_view(headers@).take(i as int) =~= headers_view(headers@));
    out.push(CR);
    out.push(LF);
    append(&mut out, body);
    assert(out@ =~= encode_spec(headers_view(headers@), body@));
    out
}


/// Why a frame could not be decoded.
#[derive(Clone, Copy, PartialEq, Eq, Structural, Debug)]
pub enum FrameError {
    /// A line without a colon, a CR or LF out of place, an empty name, a
    /// `Content-Length` that is not a decimal number, or two that differ.
    MalformedHeader,
    /// The headers ended without a `Content-Length`.
    MissingContentLength,
    /// `Content-Length` exceeds the cap.
    OversizedFrame,
    /// The input ended inside the headers or the body.
    UnexpectedEof,
}

pub open spec fn is_break(b: u8) -> bool {
    b == CR || b == LF
}

pub open spec fn is_ws(b: u8) -> bool {
    b == 32u8 || b == 9u8
}

pub open spec fn is_digit(b: u8) -> bool {
    48u8 <= b <= 57u8
}

pub open spec fn lower(b: u8) -> u8 {
    if 65u8 <= b <= 90u8 {
        (b + 32) as u8
    } else {
        b
    }
}

/// The first CR or LF at or after `i`, or the end of `s`.
pub open spec fn find_break(s: Seq<u8>, i: int) -> int
    decreases s.len() - i,
{
    if i < 0 || i >= s.len() {
        s.len() as int
    } else if is_break(s[i]) {
        i
    } else {
        find_break(s, i + 1)
    }
}

/// The first colon in `[i, end)`, or `end`.
pub open spec fn find_colon(s: Seq<u8>, i: int, end: int) -> int
    decreases end - i,
{
    if i < 0 || i >= end || i >= s.len() {
        end
    } else if s[i] == 58u8 {
        i
    } else {
        find_colon(s, i + 1, end)
    }
}

/// The first byte in `[i, end)` that is not a space or tab, or `end`.
pub open spec fn skip_ws(s: Seq<u8>, i: int, end: int) -> int
    decreases end - i,
{
    if i < 0 || i >= end || i >= s.len() {
        end
    } else if is_ws(s[i]) {
        skip_ws(s, i + 1, end)
    } else {
        i
    }
}

/// Going back from `j` over spaces and tabs, but not below `lo`.
pub open spec fn skip_ws_back(s: Seq<u8>, lo: int, j: int) -> int
    decreases j - lo,
{
    if j <= lo || j > s.len() {
        j
    } else if is_ws(s[j - 1]) {
        skip_ws_back(s, lo, j - 1)
    } else {
        j
    }
}

/// The number that a run of decimal digits spells.
pub open spec fn digits_value(d: Seq<u8>) -> nat
    decreases d.len(),
{
    if d.len() == 0 {
        0
    } else {
        digits_value(d.drop_last()) * 10 + (d.last() - 48) as nat
    }
}

/// Whether a header name is `Content-Length`, in any case.
pub open spec fn is_content_length(name: Seq<u8>) -> bool {
    &&& name.len() == 14
    &&& forall|i: int| 0 <= i < 14 ==> lower(#[trigger] name[i]) == lower(content_length_name()[i])
}

/// The value of a `Content-Length` header.
pub open spec fn parse_length(v: Seq<u8>) -> Result<nat, FrameError> {
    if v.len() == 0 || !(forall|i: int| 0 <= i < v.len() ==> is_digit(#[trigger] v[i])) {
        Err(FrameError::MalformedHeader)
    } else if digits_value(v) > MAX_BODY {
        Err(FrameError::OversizedFrame)
    } else {
        Ok(digits_value(v))
    }
}

/// Reads the header lines of `s` from `pos` on, with the length seen so far
/// and the other headers gathered so far. On success: the length, the other
/// headers, and where the body starts.
pub open spec fn parse_headers(s: Seq<u8>, pos: int, len: Option<nat>, acc: Seq<HeaderView>) -> Result<
    (nat, Seq<HeaderView>, int),
    FrameError,
>
    decreases s.len() - pos,
{
    let k = find_break(s, pos);
    if pos < 0 || k >= s.len() {
        Err(FrameError::UnexpectedEof)
    } else if s[k] == LF {
        Err(FrameError::MalformedHeader)
    } else if k + 1 >= s.len() {
        Err(FrameError::UnexpectedEof)
    } else if s[k + 1] != LF {
        Err(FrameError::MalformedHeader)
    } else if k == pos {
        match len {
            None => Err(FrameError::MissingContentLength),
            Some(n) => Ok((n, acc, k + 2)),
        }
    } else {
        let c = find_colon(s, pos, k);
        if c >= k || c == pos {
            Err(FrameError::MalformedHeader)
        } else {
            let a = skip_ws(s, c + 1, k);
            let b = skip_ws_back(s, a, k);
            let name = s.subrange(pos, c);
            let value = s.subrange(a, b);
            if is_content_length(name) {
                match parse_length(value) {
                    Err(e) => Err(e),
                    Ok(n) => if len is Some && len->Some_0 != n {
                        Err(FrameError::MalformedHeader)
                    } else {
                        parse_headers(s, k + 2, Some(n), acc)
                    },
                }
            } else {
                parse_headers(s, k + 2, len, acc.push(HeaderView { name, value }))
            }
        }
    }
}

/// Decodes the frame at the start of `s`: the frame, and how many bytes of
/// `s` it took.
pub open spec fn decode_spec(s: Seq<u8>) -> Result<(FrameView, nat), FrameError> {
    match parse_headers(s, 0, None, Seq::empty()) {
        Err(e) => Err(e),
        Ok((n, hs, start)) => if start + n > s.len() {
            Err(FrameError::UnexpectedEof)
        } else {
            Ok((FrameView { headers: hs, body: s.subrange(start, start + n as int) }, (start + n) as nat))
        },
    }
}

proof fn lemma_find_break_bounds(s: Seq<u8>, i: int)
    requires
        0 <= i <= s.len(),
    ensures
        i <= find_break(s, i) <= s.len(),
        forall|j: int| i <= j < find_break(s, i) ==> !is_break(#[trigger] s[j]),
        find_break(s, i) < s.len() ==> is_break(s[find_break(s, i)]),
    decreases s.len() - i,
{
    if i < s.len() && !is_break(s[i]) {
        lemma_find_break_bounds(s, i + 1);
    }
}

proof fn lemma_find_colon_bounds(s: Seq<u8>, i: int, end: int)
    requires
        0 <= i <= end <= s.len(),
    ensures
        i <= find_colon(s, i, end) <= end,
    decreases end - i,
{
    if i < end && s[i] != 58u8 {
        lemma_find_colon_bounds(s, i + 1, end);
    }
}

proof fn lemma_skip_ws_bounds(s: Seq<u8>, i: int, end: int)
    requires
        0 <= i <= end <= s.len(),
    ensures
        i <= skip_ws(s, i, end) <= end,
    decreases end - i,
{
    if i < end && is_ws(s[i]) {
        lemma_skip_ws_bounds(s, i + 1, end);
    }
}

proof fn lemma_skip_ws_back_bounds(s: Seq<u8>, lo: int, j: int)
    requires
        0 <= lo <= j <= s.len(),
    ensures
        lo <= skip_ws_back(s, lo, j) <= j,
    decreases j - lo,
{
    if j > lo && is_ws(s[j - 1]) {
        lemma_skip_ws_back_bounds(s, lo, j - 1);
    }
}

fn find_break_exec(s: &[u8], i: usize) -> (r: usize)
    requires
        i <= s@.len(),
    ensures
        r == find_break(s@, i as int),
{
    let mut j = i;
    while j < s.len()
        invariant
            i <= j <= s@.len(),
            find_break(s@, j as int) == find_break(s@, i as int),
        decreases s@.len() - j,
    {
        if s[j] == CR || s[j] == LF {
            return j;
        }
        j = j + 1;
    }
    j
}

fn find_colon_exec(s: &[u8], i: usize, end: usize) -> (r: usize)
    requires
        i <= end <= s@.len(),
    ensures
        r == find_colon(s@, i as int, end as int),
{
    let mut j = i;
    while j < end
        invariant
            i <= j <= end,
            end <= s@.len(),
            find_colon(s@, j as int, end as int) == find_colon(s@, i as int, end as int),
        decreases end - j,
    {
        if s[j] == 58u8 {
            return j;
        }
        j = j + 1;
    }
    j
}

fn skip_ws_exec(s: &[u8], i: usize, end: usize) -> (r: usize)
    requires
        i <= end <= s@.len(),
    ensures
        r == skip_ws(s@, i as int, end as int),
{
    let mut j = i;
    while j < end
        invariant
            i <= j <= end,
            end <= s@.len(),
            skip_ws(s@, j as int, end as int) == skip_ws(s@, i as int, end as int),
        decreases end - j,
    {
        if !(s[j] == 32u8 || s[j] == 9u8) {
            return j;
        }
        j = j + 1;
    }
    j
}

fn skip_ws_back_exec(s: &[u8], lo: usize, j: usize) -> (r: usize)
    requires
        lo <= j <= s@.len(),
    ensures
        r == skip_ws_back(s@, lo as int, j as int),
{
    let mut k = j;
    while k > lo
        invariant
            lo <= k <= j,
            j <= s@.len(),
            skip_ws_back(s@, lo as int, k as int) == skip_ws_back(s@, lo as int, j as int),
        decreases k - lo,
    {
        if !(s[k - 1] == 32u8 || s[k - 1] == 9u8) {
            return k;
        }
        k = k - 1;
    }
    k
}

fn lower_exec(b: u8) -> (r: u8)
    ensures
        r == lower(b),
{
    if 65u8 <= b && b <= 90u8 {
        b + 32
    } else {
        b
    }
}

fn is_content_length_exec(s: &[u8], i: usize, j: usize) -> (r: bool)
    requires
        i <= j <= s@.len(),
    ensures
        r == is_content_length(s@.subrange(i as int, j as int)),
{
    if j - i != 14 {
        return false;
    }
    let name = content_length_bytes();
    let mut k: usize = 0;
    while k < 14
        invariant
            k <= 14,
            j - i == 14,
            i <= j <= s@.len(),
            name@ == content_length_name(),
            forall|m: int| 0 <= m < k ==> lower(s@[i + m]) == lower(content_length_name()[m]),
        decreases 14 - k,
    {
        if lower_exec(s[i + k]) != lower_exec(name[k]) {
            assert(lower(s@.subrange(i as int, j as int)[k as int]) != lower(content_length_name()[k as int]));
            return false;
        }
        k = k + 1;
    }
    true
}

/// Reads the digits of `s[i..j]`: the length, or why it is refused.
fn parse_length_exec(s: &[u8], i: usize, j: usize) -> (r: Result<usize, FrameError>)
    requires
        i <= j <= s@.len(),
    ensures
        match parse_length(s@.subrange(i as int, j as int)) {
            Ok(n) => r == Ok::<usize, FrameError>(n as usize),
            Err(e) => r == Err::<usize, FrameError>(e),
        },
{
    let ghost v = s@.subrange(i as int, j as int);
    if i == j {
        return Err(FrameError::MalformedHeader);
    }
    let mut k: usize = i;
    while k < j
        invariant
            i <= k <= j <= s@.len(),
            v == s@.subrange(i as int, j as int),
            forall|m: int| i <= m < k ==> is_digit(s@[m]),
        decreases j - k,
    {
        if !(48u8 <= s[k] && s[k] <= 57u8) {
            assert(!is_digit(v[k - i]));
            return Err(FrameError::MalformedHeader);
        }
        k = k + 1;
    }
    assert(forall|m: int| 0 <= m < v.len() ==> is_digit(#[trigger] v[m]));
    let mut acc: usize = 0;
    let mut k: usize = i;
    while k < j
        invariant
            i <= k <= j <= s@.len(),
            v == s@.subrange(i as int, j as int),
            forall|m: int| 0 <= m < v.len() ==> is_digit(#[trigger] v[m]),
            acc as nat == digits_value(s@.subrange(i as int, k as int)),
            acc <= MAX_BODY,
        decreases j - k,
    {
        assert(v[k - i] == s@[k as int]);
        assert(is_digit(v[k - i]));
        let d = (s[k] - 48) as usize;
        assert(s@.subrange(i as int, k + 1).drop_last() =~= s@.subrange(i as int, k as int));
        if acc > (MAX_BODY - d) / 10 {
            proof {
                lemma_digits_grow(s@.subrange(i as int, j as int), k + 1 - i);
                assert(s@.subrange(i as int, j as int).subrange(0, k + 1 - i) =~= s@.subrange(i as int, k + 1));
            }
            return Err(FrameError::OversizedFrame);
        }
        acc = acc * 10 + d;
        k = k + 1;
    }
    assert(s@.subrange(i as int, k as int) =~= v);
    Ok(acc)
}

/// Appending digits never makes the number smaller.
proof fn lemma_digits_grow(v: Seq<u8>, k: int)
    requires
        0 <= k <= v.len(),
        forall|m: int| 0 <= m < v.len() ==> is_digit(#[trigger] v[m]),
    ensures
        digits_value(v.subrange(0, k)) <= digits_value(v),
    decreases v.len() - k,
{
    if k < v.len() {
        lemma_digits_grow(v, k + 1);
        assert(v.subrange(0, k + 1).drop_last() =~= v.subrange(0, k));
        assert(is_digit(v[k]));
    } else {
        assert(v.subrange(0, k) =~= v);
    }
}

fn copy_range(s: &[u8], i: usize, j: usize) -> (r: Vec<u8>)
    requires
        i <= j <= s@.len(),
    ensures
        r@ == s@.subrange(i as int, j as int),
{
    vstd::slice::slice_to_vec(vstd::slice::slice_subrange(s, i, j))
}

/// Decodes the frame at the start of `input`. On success: the frame and the
/// number of bytes it took; a body never exceeds `MAX_BODY`.
pub fn decode_one(input: &[u8]) -> (r: Result<(Frame, usize), FrameError>)
    ensures
        match decode_spec(input@) {
            Ok((f, n)) => r is Ok && r->Ok_0.0@ == f && r->Ok_0.1 == n,
            Err(e) => r == Err::<(Frame, usize), FrameError>(e),
        },
        r is Ok ==> r->Ok_0.0.body@.len() <= MAX_BODY,
{
    let mut pos: usize = 0;
    let mut len: Option<usize> = None;
    let mut headers: Vec<Header> = Vec::new();
    let ghost whole = parse_headers(input@, 0, None, Seq::empty());
    assert(headers_view(headers@) =~= Seq::<HeaderView>::empty());
    loop
        invariant
            pos <= input@.len(),
            len is Some ==> len->Some_0 <= MAX_BODY,
            parse_headers(input@, pos as int, match len { Some(n) => Some(n as nat), None => None },
                headers_view(headers@)) == whole,
            whole == parse_headers(input@, 0, None, Seq::empty()),
        decreases input@.len() - pos,
    {
        let ghost lv: Option<nat> = match len { Some(n) => Some(n as nat), None => None };
        let k = find_break_exec(input, pos);
        proof {
            lemma_find_break_bounds(input@, pos as int);
        }
        if k >= input.len() {
            return Err(FrameError::UnexpectedEof);
        }
        if input[k] == LF {
            return Err(FrameError::MalformedHeader);
        }
        if k + 1 >= input.len() {
            return Err(FrameError::UnexpectedEof);
        }
        if input[k + 1] != LF {
            return Err(FrameError::MalformedHeader);
        }
        if k == pos {
            match len {
                None => {
                    return Err(FrameError::MissingContentLength);
                },
                Some(n) => {
                    let start = k + 2;
                    if n > input.len() - start {
                        return Err(FrameError::UnexpectedEof);
                    }
                    let body = copy_range(input, start, start + n);
                    let frame = Frame { headers, body };
                    return Ok((frame, start + n));
                },
            }
        }
        let c = find_colon_exec(input, pos, k);
        proof {
            lemma_find_colon_bounds(input@, pos as int, k as int);
        }
        if c >= k || c == pos {
            return Err(FrameError::MalformedHeader);
        }
        let a = skip_ws_exec(input, c + 1, k);
        proof {
            lemma_skip_ws_bounds(input@, c + 1, k as int);
        }
        let b = skip_ws_back_exec(input, a, k);
        proof {
            lemma_skip_ws_back_bounds(input@, a as int, k as int);
        }
        if is_content_length_exec(input, pos, c) {
            match parse_length_exec(input, a, b) {
                Err(e) => {
                    return Err(e);
                },
                Ok(n) => {
                    if len.is_some() && len.unwrap() != n {
                        return Err(FrameError::MalformedHeader);
                    }
                    len = Some(n);
                },
            }
        } else {
            let name = copy_range(input, pos, c);
            let value = copy_range(input, a, b);
            let ghost before = headers@;
            headers.push(Header { name, value });
            assert(headers_view(headers@) =~= headers_view(before).push(
                HeaderView { name: input@.subrange(pos as int, c as int), value: input@.subrange(a as int, b as int) },
            ));
        }
        pos = k + 2;
    }
}

/// A header that a frame can carry and give back unchanged: a non-empty
/// name without colon, CR or LF; a value without CR or LF that neither starts
/// nor ends with a space or tab.
pub open spec fn valid_line(h: HeaderView) -> bool {
    &&& h.name.len() > 0
    &&& forall|i: int| 0 <= i < h.name.len() ==> #[trigger] h.name[i] != 58u8 && !is_break(h.name[i])
    &&& forall|i: int| 0 <= i < h.value.len() ==> !is_break(#[trigger] h.value[i])
    &&& h.value.len() > 0 ==> !is_ws(h.value[0]) && !is_ws(h.value.last())
}

/// A header other than `Content-Length` that a frame can carry.
pub open spec fn valid_header(h: HeaderView) -> bool {
    valid_line(h) && !is_content_length(h.name)
}

proof fn lemma_find_break_at(s: Seq<u8>, i: int, k: int)
    requires
        0 <= i <= k < s.len(),
        forall|j: int| i <= j < k ==> !is_break(#[trigger] s[j]),
        is_break(s[k]),
    ensures
        find_break(s, i) == k,
    decreases k - i,
{
    if i < k {
        lemma_find_break_at(s, i + 1, k);
    }
}

proof fn lemma_find_colon_at(s: Seq<u8>, i: int, c: int, end: int)
    requires
        0 <= i <= c < end <= s.len(),
        forall|j: int| i <= j < c ==> #[trigger] s[j] != 58u8,
        s[c] == 58u8,
    ensures
        find_colon(s, i, end) == c,
    decreases c - i,
{
    if i < c {
        lemma_find_colon_at(s, i + 1, c, end);
    }
}

proof fn lemma_decimal(n: nat)
    ensures
        decimal(n).len() > 0,
        forall|i: int| 0 <= i < decimal(n).len() ==> is_digit(#[trigger] decimal(n)[i]),
        digits_value(decimal(n)) == n,
    decreases n,
{
    if n >= 10 {
        lemma_decimal(n / 10);
        let d = decimal(n);
        assert(d.drop_last() =~= decimal(n / 10));
        vstd::arithmetic::div_mod::lemma_fundamental_div_mod(n as int, 10);
        assert(digits_value(d) == (n / 10) * 10 + n % 10);
    } else {
        assert(decimal(n).drop_last() =~= Seq::<u8>::empty());
        assert(digits_value(decimal(n)) == digits_value(Seq::<u8>::empty()) * 10 + n);
    }
}

/// Where the line of `h` stands at `p` in `s`, the reader finds its end, its
/// colon, its name and its value.
proof fn lemma_line_parts(s: Seq<u8>, p: int, h: HeaderView)
    requires
        valid_line(h),
        0 <= p,
        p + header_line(h).len() <= s.len(),
        forall|i: int| 0 <= i < header_line(h).len() ==> s[p + i] == #[trigger] header_line(h)[i],
    ensures
        ({
            let m = h.name.len() as int;
            let k = p + m + 2 + h.value.len();
            &&& find_break(s, p) == k
            &&& s[k] == CR
            &&& s[k + 1] == LF
            &&& find_colon(s, p, k) == p + m
            &&& skip_ws(s, p + m + 1, k) == p + m + 2
            &&& skip_ws_back(s, p + m + 2, k) == k
            &&& s.subrange(p, p + m) == h.name
            &&& s.subrange(p + m + 2, k) == h.value
        }),
{
    let line = header_line(h);
    let m = h.name.len() as int;
    let v = h.value.len() as int;
    let k = p + m + 2 + v;
    assert forall|i: int| 0 <= i < m implies s[p + i] == h.name[i] by {
        assert(line[i] == h.name[i]);
    }
    assert(line[m] == 58u8);
    assert(line[m + 1] == 32u8);
    assert forall|i: int| 0 <= i < v implies s[p + m + 2 + i] == h.value[i] by {
        assert(line[m + 2 + i] == h.value[i]);
    }
    assert(line[m + 2 + v] == CR);
    assert(line[m + 3 + v] == LF);
    assert(s[p + m] == 58u8);
    assert(s[p + m + 1] == 32u8);
    assert(s[k] == CR);
    assert(s[k + 1] == LF);
    assert forall|j: int| p <= j < k implies !is_break(#[trigger] s[j]) by {
        if j < p + m {
            assert(s[p + (j - p)] == h.name[j - p]);
        } else if j >= p + m + 2 {
            assert(s[p + m + 2 + (j - p - m - 2)] == h.value[j - p - m - 2]);
        }
    }
    lemma_find_break_at(s, p, k);
    assert forall|j: int| p <= j < p + m implies #[trigger] s[j] != 58u8 by {
        assert(s[p + (j - p)] == h.name[j - p]);
    }
    lemma_find_colon_at(s, p, p + m, k);
    if v > 0 {
        assert(s[p + m + 2 + 0] == h.value[0]);
        assert(s[p + m + 2 + (v - 1)] == h.value[v - 1]);
        assert(h.value.last() == h.value[v - 1]);
    }
    assert(skip_ws(s, p + m + 1, k) == skip_ws(s, p + m + 2, k));
    assert(s.subrange(p, p + m) =~= h.name);
    assert(s.subrange(p + m + 2, k) =~= h.value);
}

proof fn lemma_headers_prefix(hs: Seq<HeaderView>, j: int, k: int)
    requires
        0 <= j <= k <= hs.len(),
    ensures
        headers_bytes(hs.take(j)).len() <= headers_bytes(hs.take(k)).len(),
        headers_bytes(hs.take(k)).subrange(0, headers_bytes(hs.take(j)).len() as int)
            == headers_bytes(hs.take(j)),
    decreases k - j,
{
    if j == k {
        assert(headers_bytes(hs.take(k)).subrange(0, headers_bytes(hs.take(j)).len() as int)
            =~= headers_bytes(hs.take(j)));
    } else {
        lemma_headers_prefix(hs, j, k - 1);
        assert(hs.take(k).drop_last() =~= hs.take(k - 1));
        assert(headers_bytes(hs.take(k)).subrange(0, headers_bytes(hs.take(j)).len() as int)
            =~= headers_bytes(hs.take(k - 1)).subrange(0, headers_bytes(hs.take(j)).len() as int));
    }
}

/// Reading the user header lines, from the `j`th on, gathers them all.
proof fn lemma_read_headers(s: Seq<u8>, p0: int, hs: Seq<HeaderView>, n: nat, j: int)
    requires
        0 <= p0,
        0 <= j <= hs.len(),
        forall|i: int| 0 <= i < hs.len() ==> valid_header(#[trigger] hs[i]),
        p0 + headers_bytes(hs).len() <= s.len(),
        s.subrange(p0, p0 + headers_bytes(hs).len()) == headers_bytes(hs),
    ensures
        parse_headers(s, p0 + headers_bytes(hs.take(j)).len(), Some(n), hs.take(j))
            == parse_headers(s, p0 + headers_bytes(hs).len(), Some(n), hs),
    decreases hs.len() - j,
{
    if j == hs.len() {
        assert(hs.take(j) =~= hs);
    } else {
        let h = hs[j];
        let pre = headers_bytes(hs.take(j));
        let next = headers_bytes(hs.take(j + 1));
        let all = headers_bytes(hs);
        let q = p0 + pre.len();
        assert(hs.take(j + 1).drop_last() =~= hs.take(j));
        assert(next == pre + header_line(h));
        lemma_headers_prefix(hs, j + 1, hs.len() as int);
        assert(hs.take(hs.len() as int) =~= hs);
        assert forall|i: int| 0 <= i < header_line(h).len() implies s[q + i] == #[trigger] header_line(h)[i] by {
            assert(s.subrange(p0, p0 + all.len())[pre.len() + i] == s[q + i]);
            assert(all.subrange(0, next.len() as int)[pre.len() + i] == next[pre.len() + i]);
        }
        lemma_line_parts(s, q, h);
        let m = h.name.len() as int;
        let k = q + m + 2 + h.value.len();
        assert(k + 2 == p0 + next.len());
        assert(hs.take(j).push(h) =~= hs.take(j + 1));
        assert(parse_headers(s, q, Some(n), hs.take(j)) == parse_headers(s, k + 2, Some(n), hs.take(j + 1)));
        lemma_read_headers(s, p0, hs, n, j + 1);
    }
}

/// Decoding an encoded frame gives back its headers and body, and takes all
/// of its bytes; the `Content-Length` read is the body's exact length.
pub proof fn lemma_round_trip(hs: Seq<HeaderView>, body: Seq<u8>)
    requires
        body.len() <= MAX_BODY,
        forall|i: int| 0 <= i < hs.len() ==> valid_header(#[trigger] hs[i]),
    ensures
        decode_spec(encode_spec(hs, body)) == Ok::<(FrameView, nat), FrameError>(
            (FrameView { headers: hs, body }, encode_spec(hs, body).len()),
        ),
        parse_headers(encode_spec(hs, body), 0, None, Seq::empty()) is Ok,
        parse_headers(encode_spec(hs, body), 0, None, Seq::empty())->Ok_0.0 == body.len(),
{
    let n = body.len();
    let first = HeaderView { name: content_length_name(), value: decimal(n) };
    let l0 = header_line(first);
    let hb = headers_bytes(hs);
    let s = encode_spec(hs, body);
    lemma_decimal(n);
    assert(first.value[0] == decimal(n)[0]);
    assert(first.value.last() == decimal(n)[decimal(n).len() - 1]);
    assert(valid_line(first)) by {
        assert forall|i: int| 0 <= i < first.name.len() implies #[trigger] first.name[i] != 58u8 && !is_break(first.name[i]) by {
            let c = content_length_name();
            assert(c[0] == 67u8 && c[1] == 111u8 && c[2] == 110u8 && c[3] == 116u8 && c[4] == 101u8);
            assert(c[5] == 110u8 && c[6] == 116u8 && c[7] == 45u8 && c[8] == 76u8 && c[9] == 101u8);
            assert(c[10] == 110u8 && c[11] == 103u8 && c[12] == 116u8 && c[13] == 104u8);
        }
    }
    assert(s =~= l0 + (hb + crlf() + body));
    assert forall|i: int| 0 <= i < l0.len() implies s[0 + i] == #[trigger] l0[i] by {}
    lemma_line_parts(s, 0, first);
    let k0: int = 14 + 2 + decimal(n).len() as int;
    assert(is_content_length(content_length_name()));
    assert(parse_length(decimal(n)) == Ok::<nat, FrameError>(n));
    assert(parse_headers(s, 0, None, Seq::empty()) == parse_headers(s, k0 + 2, Some(n), Seq::empty()));
    let p0 = l0.len() as int;
    assert(s =~= l0 + hb + (crlf() + body));
    assert(s.subrange(p0, p0 + hb.len()) =~= hb);
    assert(hs.take(0) =~= Seq::<HeaderView>::empty());
    lemma_read_headers(s, p0, hs, n, 0);
    let q = p0 + hb.len();
    assert(s[q] == CR);
    assert(s[q + 1] == LF);
    assert(find_break(s, q) == q);
    assert(parse_headers(s, q, Some(n), hs) == Ok::<(nat, Seq<HeaderView>, int), FrameError>((n, hs, q + 2)));
    assert(s.subrange(q + 2, q + 2 + n) =~= body);
}

} // verus!
