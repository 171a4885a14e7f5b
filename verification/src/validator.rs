//! Request boundary validator: splits a byte stream into complete JSON requests.
use vstd::prelude::*;
use vstd::utf8::*;

verus! {

/// Number of bytes in the UTF-8 encoding of a character.
pub open spec fn char_width(c: char) -> nat {
    if (c as u32) < 0x80 {
        1
    } else if (c as u32) < 0x800 {
        2
    } else if (c as u32) < 0x10000 {
        3
    } else {
        4
    }
}

/// Number of bytes in the UTF-8 encoding of a character sequence.
pub open spec fn utf8_width(s: Seq<char>) -> nat
    decreases s.len(),
{
    if s.len() == 0 {
        0
    } else {
        char_width(s[0]) + utf8_width(s.drop_first())
    }
}

/// State of the boundary scanner after reading a prefix of the input.
pub struct ScanState {
    /// Current bracket nesting depth.
    pub depth: int,
    /// Inside a string literal.
    pub in_str: bool,
    /// Escape flag.
    pub is_escaped: bool,
    /// An opening bracket was seen at depth zero since the last boundary.
    pub ever_started: bool,
    /// Index of the first character of the pending chunk.
    pub start: int,
    /// Character ranges `[from, to)` of the complete requests found so far.
    pub chunks: Seq<(int, int)>,
    /// Byte offset of the last character after which the nesting depth was zero.
    pub last_req: int,
}

/// Scanner state before any input.
pub open spec fn scan_init() -> ScanState {
    ScanState {
        depth: 0,
        in_str: false,
        is_escaped: false,
        ever_started: false,
        start: 0,
        chunks: seq![],
        last_req: 0,
    }
}

/// One scanner step on character `c`, the `k`-th character, which starts at byte `offset`.
pub open spec fn scan_step(st: ScanState, c: char, k: int, offset: int) -> ScanState {
    let opens = (c == '{' || c == '[') && !st.in_str;
    let closes = !opens && (c == '}' || c == ']') && !st.in_str;
    let quote = !opens && !closes && c == '"' && !st.is_escaped;
    let escape = !opens && !closes && !quote && c == '\\' && st.is_escaped && !st.in_str;
    let depth = if opens {
        st.depth + 1
    } else if closes {
        st.depth - 1
    } else {
        st.depth
    };
    let ever_started = if opens && st.depth == 0 {
        true
    } else {
        st.ever_started
    };
    let in_str = if quote {
        !st.in_str
    } else {
        st.in_str
    };
    let is_escaped = if escape {
        !st.is_escaped
    } else {
        st.is_escaped
    };
    if depth == 0 {
        ScanState {
            depth,
            in_str,
            is_escaped,
            ever_started: false,
            start: if ever_started {
                k + 1
            } else {
                st.start
            },
            chunks: if ever_started {
                st.chunks.push((st.start, k + 1))
            } else {
                st.chunks
            },
            last_req: offset,
        }
    } else {
        ScanState {
            depth,
            in_str,
            is_escaped,
            ever_started,
            start: st.start,
            chunks: st.chunks,
            last_req: st.last_req,
        }
    }
}

/// Scanner state after reading all of `chars`.
pub open spec fn scan(chars: Seq<char>) -> ScanState
    decreases chars.len(),
{
    if chars.len() == 0 {
        scan_init()
    } else {
        let k = chars.len() - 1;
        scan_step(scan(chars.take(k)), chars[k], k, utf8_width(chars.take(k)) as int)
    }
}

/// The requests found in `buf` and the byte offset of the last request boundary:
/// nothing when `buf` is not valid UTF-8.
pub open spec fn spec_extract_requests(buf: Seq<u8>) -> (Seq<Seq<char>>, int) {
    if !valid_utf8(buf) {
        (seq![], 0)
    } else {
        let chars = decode_utf8(buf);
        let st = scan(chars);
        (st.chunks.map_values(|r: (int, int)| chars.subrange(r.0, r.1)), st.last_req)
    }
}

proof fn lemma_width_concat(a: Seq<char>, b: Seq<char>)
    ensures
        utf8_width(a + b) == utf8_width(a) + utf8_width(b),
    decreases a.len(),
{
    if a.len() == 0 {
        assert(a + b =~= b);
    } else {
        assert((a + b).drop_first() =~= a.drop_first() + b);
        lemma_width_concat(a.drop_first(), b);
    }
}

proof fn lemma_width_push(s: Seq<char>, k: int)
    requires
        0 <= k < s.len(),
    ensures
        utf8_width(s.take(k + 1)) == utf8_width(s.take(k)) + char_width(s[k]),
{
    let one = seq![s[k]];
    assert(s.take(k + 1) =~= s.take(k) + one);
    lemma_width_concat(s.take(k), one);
    assert(one.drop_first() =~= Seq::<char>::empty());
    assert(utf8_width(Seq::<char>::empty()) == 0);
    assert(utf8_width(one) == char_width(one[0]) + utf8_width(one.drop_first()));
}

proof fn lemma_width_prefix(s: Seq<char>, k: int)
    requires
        0 <= k <= s.len(),
    ensures
        utf8_width(s.take(k)) <= utf8_width(s),
        k <= utf8_width(s.take(k)),
    decreases s.len() - k,
{
    lemma_width_at_least_len(s.take(k));
    if k == s.len() {
        assert(s.take(k) =~= s);
    } else {
        lemma_width_prefix(s, k + 1);
        lemma_width_push(s, k);
    }
}

proof fn lemma_width_at_least_len(s: Seq<char>)
    ensures
        s.len() <= utf8_width(s),
    decreases s.len(),
{
    if s.len() > 0 {
        lemma_width_at_least_len(s.drop_first());
    }
}

proof fn lemma_first_scalar_width(b: Seq<u8>)
    requires
        valid_first_scalar(b),
    ensures
        char_width(decode_first_scalar(b) as char) == length_of_first_scalar(b),
{
    let x = decode_first_scalar(b);
    if is_leading_byte_width_1(b[0]) {
        let b0 = b[0];
        assert((b0 & 0x7F) as u32 <= 0x7F) by (bit_vector);
    } else if is_leading_byte_width_2(b[0]) {
        let (b0, b1) = (b[0], b[1]);
        assert(((b0 & 0x1F) as u32) << 6 | ((b1 & 0x3F) as u32) <= 0x7FF) by (bit_vector);
    } else if is_leading_byte_width_3(b[0]) {
        let (b0, b1, b2) = (b[0], b[1], b[2]);
        assert(((b0 & 0x0F) as u32) << 12 | ((b1 & 0x3F) as u32) << 6 | ((b2 & 0x3F) as u32)
            <= 0xFFFF) by (bit_vector);
    }
    assert(is_scalar(x));
    assert((x as char) as u32 == x);
}

/// The last boundary lies within the scanned bytes.
proof fn lemma_last_req_bound(chars: Seq<char>)
    ensures
        0 <= scan(chars).last_req,
        chars.len() > 0 ==> scan(chars).last_req < utf8_width(chars),
        chars.len() == 0 ==> scan(chars).chunks.len() == 0,
    decreases chars.len(),
{
    if chars.len() > 0 {
        let k = chars.len() - 1;
        lemma_last_req_bound(chars.take(k));
        lemma_width_push(chars, k);
        assert(chars.take(k + 1) =~= chars);
        if k > 0 {
            lemma_width_prefix(chars, k);
        }
        assert(char_width(chars[k]) >= 1);
    }
}

/// The decoded characters of valid UTF-8 take exactly as many bytes as were decoded.
proof fn lemma_decode_width(b: Seq<u8>)
    requires
        valid_utf8(b),
    ensures
        utf8_width(decode_utf8(b)) == b.len(),
    decreases b.len(),
{
    if b.len() > 0 {
        let rest = pop_first_scalar(b);
        assert(rest.len() == b.len() - length_of_first_scalar(b));
        lemma_decode_width(rest);
        lemma_first_scalar_width(b);
        let d = decode_utf8(b);
        assert(d.drop_first() =~= decode_utf8(rest));
    }
}

/// The exec ranges hold the scanner's chunks, all within the first `k` characters.
spec fn ranges_agree(r: Seq<(usize, usize)>, chunks: Seq<(int, int)>, k: int) -> bool {
    &&& r.len() == chunks.len()
    &&& forall|i: int|
        0 <= i < r.len() ==> (#[trigger] r[i]).0 == chunks[i].0 && r[i].1 == chunks[i].1 && 0
            <= chunks[i].0 <= chunks[i].1 <= k
}

proof fn lemma_ranges_same(r: Seq<(usize, usize)>, c: Seq<(int, int)>, k: int)
    requires
        ranges_agree(r, c, k),
    ensures
        ranges_agree(r, c, k + 1),
{
}

proof fn lemma_ranges_push(r: Seq<(usize, usize)>, c: Seq<(int, int)>, p: (usize, usize), k: int)
    requires
        ranges_agree(r, c, k),
        p.0 <= p.1 <= k + 1,
    ensures
        ranges_agree(r.push(p), c.push((p.0 as int, p.1 as int)), k + 1),
{
    let r1 = r.push(p);
    let c1 = c.push((p.0 as int, p.1 as int));
    assert forall|i: int| 0 <= i < r1.len() implies (#[trigger] r1[i]).0 == c1[i].0 && r1[i].1
        == c1[i].1 && 0 <= c1[i].0 <= c1[i].1 <= k + 1 by {
        if i < r.len() {
            assert(r1[i] == r[i]);
            assert(c1[i] == c[i]);
        }
    }
}

/// Decodes `buf` as UTF-8 through `String::from_utf8`.
///
/// Trusted: `String::from_utf8` succeeds exactly on valid UTF-8 and then holds the
/// decoded characters.
#[verifier::external_body]
pub(crate) fn string_from_utf8(buf: &[u8]) -> (res: Option<String>)
    ensures
        res is Some <==> valid_utf8(buf@),
        res matches Some(s) ==> s@ == decode_utf8(buf@),
{
    String::from_utf8(buf.to_vec()).ok()
}

/// Splits `buf` into complete JSON requests (top-level `{..}` or `[..]` chunks, together with
/// any characters that preceded them since the previous chunk).
///
/// Returns the requests and the byte index of the last character at which the bracket depth
/// returned to zero (0 when none did). A buffer that is not valid UTF-8 gives no requests.
pub fn extract_requests(buf: &[u8]) -> (res: (Vec<String>, usize))
    ensures
        res.0@.len() == spec_extract_requests(buf@).0.len(),
        forall|i: int|
            0 <= i < res.0@.len() ==> #[trigger] res.0@[i]@ == spec_extract_requests(buf@).0[i],
        res.1 == spec_extract_requests(buf@).1,
        0 <= res.1,
        res.0@.len() > 0 ==> res.1 < buf@.len(),
{
    let utf8 = match string_from_utf8(buf) {
        Some(s) => s,
        None => return (Vec::new(), 0),
    };
    let text = utf8.as_str();
    let ghost chars = text@;
    proof {
        lemma_decode_width(buf@);
        lemma_width_at_least_len(chars);
        lemma_last_req_bound(chars);
    }
    let mut depth: i128 = 0;
    let mut in_str = false;
    let mut is_escaped = false;
    let mut ever_started = false;
    let mut start: usize = 0;
    let mut ranges: Vec<(usize, usize)> = Vec::new();
    let mut last_req: usize = 0;
    let mut offset: usize = 0;
    let mut k: usize = 0;
    let ghost mut st = scan_init();
    let n: usize = buf.len();
    assert(chars.take(0) =~= Seq::<char>::empty());
    for c in it: text.chars()
        invariant
            buf@.len() == n,
            chars == text@,
            chars == decode_utf8(buf@),
            utf8_width(chars) == buf@.len(),
            chars.len() <= buf@.len(),
            it.seq() == chars,
            k == it.index(),
            0 <= k <= chars.len(),
            st == scan(chars.take(k as int)),
            offset == utf8_width(chars.take(k as int)),
            depth == st.depth,
            in_str == st.in_str,
            is_escaped == st.is_escaped,
            ever_started == st.ever_started,
            start == st.start,
            last_req == st.last_req,
            -(k as int) <= st.depth <= k,
            0 <= st.start <= k,
            ranges_agree(ranges@, st.chunks, k as int),
    {
        proof {
            assert(chars.take(k + 1).take(k as int) =~= chars.take(k as int));
            lemma_width_push(chars, k as int);
            lemma_width_prefix(chars, k + 1);
        }
        let ghost prev = st;
        let ghost prev_ranges = ranges@;
        let idx = offset;
        if (c == '{' || c == '[') && !in_str {
            if depth == 0 {
                ever_started = true;
            }
            depth += 1;
        } else if (c == '}' || c == ']') && !in_str {
            depth -= 1;
        } else if c == '"' && !is_escaped {
            in_str = !in_str;
        } else if c == '\\' && is_escaped && !in_str {
            is_escaped = !is_escaped;
        }
        if depth == 0 {
            if ever_started {
                ranges.push((start, k + 1));
                start = k + 1;
            }
            ever_started = false;
            last_req = idx;
        }
        let w: usize = if (c as u32) < 0x80 {
            1
        } else if (c as u32) < 0x800 {
            2
        } else if (c as u32) < 0x10000 {
            3
        } else {
            4
        };
        offset = offset + w;
        proof {
            st = scan_step(prev, c, k as int, idx as int);
            assert(chars[k as int] == c);
            assert(chars.take(k + 1)[k as int] == c);
            if ranges@.len() == prev_ranges.len() {
                lemma_ranges_same(prev_ranges, prev.chunks, k as int);
            } else {
                lemma_ranges_push(prev_ranges, prev.chunks, (prev.start as usize, (k + 1) as usize), k as int);
                assert(ranges@ =~= prev_ranges.push((prev.start as usize, (k + 1) as usize)));
            }
        }
        k = k + 1;
    }
    assert(chars.take(k as int) =~= chars);
    let mut res: Vec<String> = Vec::new();
    let mut j: usize = 0;
    while j < ranges.len()
        invariant
            0 <= j <= ranges@.len(),
            chars == text@,
            chars == decode_utf8(buf@),
            st == scan(chars),
            k == chars.len(),
            ranges_agree(ranges@, st.chunks, k as int),
            res@.len() == j,
            forall|i: int|
                0 <= i < j ==> #[trigger] res@[i]@ == chars.subrange(
                    st.chunks[i].0,
                    st.chunks[i].1,
                ),
        decreases ranges@.len() - j,
    {
        let (a, b) = ranges[j];
        let piece = text.substring_char(a, b).to_owned();
        res.push(piece);
        j = j + 1;
    }
    (res, last_req)
}


/// Where the last of `ranges` ends (0 when there is none).
pub open spec fn ranges_end(ranges: Seq<(int, int)>) -> int {
    if ranges.len() == 0 {
        0
    } else {
        ranges.last().1
    }
}

/// Each of `ranges` starts where the one before ended, the first at 0.
pub open spec fn ranges_contiguous(ranges: Seq<(int, int)>) -> bool {
    &&& ranges.len() > 0 ==> ranges[0].0 == 0
    &&& forall|i: int| 0 <= i < ranges.len() - 1 ==> #[trigger] ranges[i].1 == ranges[i + 1].0
    &&& forall|i: int| 0 <= i < ranges.len() ==> #[trigger] ranges[i].0 <= ranges[i].1
}

/// The concatenation of `parts`, in order.
pub open spec fn concat_all(parts: Seq<Seq<char>>) -> Seq<char>
    decreases parts.len(),
{
    if parts.len() == 0 {
        Seq::empty()
    } else {
        concat_all(parts.drop_last()) + parts.last()
    }
}

proof fn lemma_scan_ranges(chars: Seq<char>)
    ensures
        ranges_contiguous(scan(chars).chunks),
        scan(chars).start == ranges_end(scan(chars).chunks),
        0 <= scan(chars).start <= chars.len(),
        forall|i: int|
            0 <= i < scan(chars).chunks.len() ==> #[trigger] scan(chars).chunks[i].1 <= chars.len(),
    decreases chars.len(),
{
    if chars.len() > 0 {
        let k = chars.len() - 1;
        lemma_scan_ranges(chars.take(k));
        let prev = scan(chars.take(k));
        let st = scan(chars);
        if st.chunks.len() == prev.chunks.len() + 1 {
            assert(st.chunks =~= prev.chunks.push((prev.start, k + 1)));
            assert forall|i: int| 0 <= i < st.chunks.len() - 1 implies #[trigger] st.chunks[i].1
                == st.chunks[i + 1].0 by {
                if i < prev.chunks.len() - 1 {
                    assert(st.chunks[i] == prev.chunks[i]);
                    assert(st.chunks[i + 1] == prev.chunks[i + 1]);
                } else {
                    assert(st.chunks[i] == prev.chunks.last());
                }
            }
            assert forall|i: int| 0 <= i < st.chunks.len() implies #[trigger] st.chunks[i].0
                <= st.chunks[i].1 by {
                if i < prev.chunks.len() {
                    assert(st.chunks[i] == prev.chunks[i]);
                }
            }
        } else {
            assert(st.chunks == prev.chunks);
        }
    }
}

proof fn lemma_concat_ranges(s: Seq<char>, ranges: Seq<(int, int)>)
    requires
        ranges_contiguous(ranges),
        forall|i: int| 0 <= i < ranges.len() ==> #[trigger] ranges[i].1 <= s.len(),
    ensures
        0 <= ranges_end(ranges),
        concat_all(ranges.map_values(|r: (int, int)| s.subrange(r.0, r.1))) == s.subrange(
            0,
            ranges_end(ranges),
        ),
    decreases ranges.len(),
{
    let parts = ranges.map_values(|r: (int, int)| s.subrange(r.0, r.1));
    if ranges.len() == 0 {
        assert(s.subrange(0, 0) =~= Seq::<char>::empty());
    } else {
        let rest = ranges.drop_last();
        assert(ranges_contiguous(rest)) by {
            assert forall|i: int| 0 <= i < rest.len() - 1 implies #[trigger] rest[i].1 == rest[i
                + 1].0 by {
                assert(rest[i] == ranges[i] && rest[i + 1] == ranges[i + 1]);
            }
            assert forall|i: int| 0 <= i < rest.len() implies #[trigger] rest[i].0 <= rest[i].1 by {
                assert(rest[i] == ranges[i]);
            }
        }
        assert forall|i: int| 0 <= i < rest.len() implies #[trigger] rest[i].1 <= s.len() by {
            assert(rest[i] == ranges[i]);
        }
        lemma_concat_ranges(s, rest);
        assert(parts.drop_last() =~= rest.map_values(|r: (int, int)| s.subrange(r.0, r.1)));
        let last = ranges.last();
        assert(last.0 == ranges_end(rest)) by {
            if rest.len() > 0 {
                assert(ranges[rest.len() - 1].1 == ranges[rest.len() as int].0);
            }
        }
        assert(last.0 <= last.1);
        assert(s.subrange(0, last.0) + s.subrange(last.0, last.1) =~= s.subrange(0, last.1));
    }
}

/// The requests found in valid UTF-8 text, concatenated, are the text up to the end of the
/// last request: no character between them is lost, none is repeated, and their order is
/// kept.
pub proof fn law_requests_tile_the_text(buf: Seq<u8>)
    requires
        valid_utf8(buf),
    ensures
        ({
            let chars = decode_utf8(buf);
            let end = ranges_end(scan(chars).chunks);
            &&& 0 <= end <= chars.len()
            &&& concat_all(spec_extract_requests(buf).0) == chars.subrange(0, end)
        }),
{
    let chars = decode_utf8(buf);
    lemma_scan_ranges(chars);
    lemma_concat_ranges(chars, scan(chars).chunks);
}

/// A closing bracket of an object or an array.
pub open spec fn is_closing(c: char) -> bool {
    c == '}' || c == ']'
}

/// Each chunk of the scan of `chars` is non-empty and ends with a closing bracket; the
/// scanner is never inside an escape; a request under way is at depth one or more.
proof fn lemma_chunks_closed(chars: Seq<char>)
    ensures
        !scan(chars).is_escaped,
        scan(chars).ever_started ==> scan(chars).depth >= 1,
        0 <= scan(chars).start <= chars.len(),
        forall|i: int|
            0 <= i < scan(chars).chunks.len() ==> {
                let r = #[trigger] scan(chars).chunks[i];
                &&& 0 <= r.0 < r.1 <= chars.len()
                &&& is_closing(chars[r.1 - 1])
            },
    decreases chars.len(),
{
    if chars.len() > 0 {
        let k = chars.len() - 1;
        let pre = chars.take(k);
        lemma_chunks_closed(pre);
        let prev = scan(pre);
        let st = scan(chars);
        assert forall|i: int| 0 <= i < prev.chunks.len() implies {
            let r = #[trigger] prev.chunks[i];
            &&& 0 <= r.0 < r.1 <= chars.len()
            &&& is_closing(chars[r.1 - 1])
        } by {
            let r = prev.chunks[i];
            assert(pre[r.1 - 1] == chars[r.1 - 1]);
        }
        if st.chunks.len() != prev.chunks.len() {
            assert(st.chunks =~= prev.chunks.push((prev.start, k + 1)));
            assert(is_closing(chars[k]));
            assert forall|i: int| 0 <= i < st.chunks.len() implies {
                let r = #[trigger] st.chunks[i];
                &&& 0 <= r.0 < r.1 <= chars.len()
                &&& is_closing(chars[r.1 - 1])
            } by {
                if i < prev.chunks.len() {
                    assert(st.chunks[i] == prev.chunks[i]);
                }
            }
        }
    }
}

/// Every request found in valid UTF-8 text is non-empty and ends with `}` or `]`.
pub proof fn law_requests_end_with_a_closing_bracket(buf: Seq<u8>)
    requires
        valid_utf8(buf),
    ensures
        forall|i: int|
            0 <= i < spec_extract_requests(buf).0.len() ==> {
                let r = #[trigger] spec_extract_requests(buf).0[i];
                &&& r.len() > 0
                &&& is_closing(r.last())
            },
{
    let chars = decode_utf8(buf);
    lemma_chunks_closed(chars);
    let reqs = spec_extract_requests(buf).0;
    assert forall|i: int| 0 <= i < reqs.len() implies {
        let r = #[trigger] reqs[i];
        &&& r.len() > 0
        &&& is_closing(r.last())
    } by {
        let c = scan(chars).chunks[i];
        assert(reqs[i] == chars.subrange(c.0, c.1));
        assert(reqs[i].last() == chars[c.1 - 1]);
    }
}

/// Each of `ranges`, moved `d` characters on.
pub open spec fn shift_ranges(ranges: Seq<(int, int)>, d: int) -> Seq<(int, int)> {
    ranges.map_values(|r: (int, int)| (r.0 + d, r.1 + d))
}

/// At some character of `b`, the scanner started on `b` alone came back to depth zero.
pub open spec fn hits_zero(b: Seq<char>) -> bool
    decreases b.len(),
{
    if b.len() == 0 {
        false
    } else {
        scan(b).depth == 0 || hits_zero(b.take(b.len() - 1))
    }
}

/// The scanner is between requests, with nothing pending, after `a`.
pub open spec fn clean_after(a: Seq<char>) -> bool {
    let st = scan(a);
    &&& st.depth == 0
    &&& !st.in_str
    &&& !st.is_escaped
    &&& !st.ever_started
    &&& st.start == a.len()
}

/// `r` alone is exactly one request: scanning it finds one request, which spans all of it.
pub open spec fn single_request(r: Seq<char>) -> bool {
    scan(r).chunks == seq![(0int, r.len() as int)]
}

/// Scanning `b` after text `a` that leaves the scanner clean goes as scanning `b` alone,
/// moved on by `a`.
proof fn lemma_scan_after_clean(a: Seq<char>, b: Seq<char>)
    requires
        clean_after(a),
    ensures
        ({
            let st = scan(a + b);
            let sb = scan(b);
            &&& st.depth == sb.depth
            &&& st.in_str == sb.in_str
            &&& st.is_escaped == sb.is_escaped
            &&& st.ever_started == sb.ever_started
            &&& st.start == a.len() + sb.start
            &&& st.chunks == scan(a).chunks + shift_ranges(sb.chunks, a.len() as int)
            &&& st.last_req == if hits_zero(b) {
                utf8_width(a) + sb.last_req
            } else {
                scan(a).last_req
            }
        }),
    decreases b.len(),
{
    if b.len() == 0 {
        assert(a + b =~= a);
        assert(shift_ranges(scan(b).chunks, a.len() as int) =~= Seq::<(int, int)>::empty());
        assert(scan(a).chunks + Seq::<(int, int)>::empty() =~= scan(a).chunks);
    } else {
        let j = b.len() - 1;
        let bj = b.take(j);
        lemma_scan_after_clean(a, bj);
        let ab = a + b;
        let k = ab.len() - 1;
        assert(ab.take(k) =~= a + bj);
        assert(ab[k] == b[j]);
        lemma_width_concat(a, bj);
        let prev = scan(a + bj);
        let pb = scan(bj);
        let st = scan(ab);
        let sb = scan(b);
        assert(st == scan_step(prev, b[j], k, utf8_width(a + bj) as int));
        assert(sb == scan_step(pb, b[j], j, utf8_width(bj) as int));
        let d = a.len() as int;
        if sb.chunks.len() != pb.chunks.len() {
            assert(shift_ranges(sb.chunks, d) =~= shift_ranges(pb.chunks, d).push(
                (pb.start + d, j + 1 + d),
            ));
            assert(st.chunks =~= scan(a).chunks + shift_ranges(sb.chunks, d));
        } else {
            assert(shift_ranges(sb.chunks, d) == shift_ranges(pb.chunks, d));
        }
    }
}

/// The scan of a single request ends clean, with its one request's last character as the
/// last boundary, and that character takes one byte.
proof fn lemma_single_request_clean(r: Seq<char>)
    requires
        single_request(r),
    ensures
        r.len() > 0,
        clean_after(r),
        hits_zero(r),
        scan(r).last_req == utf8_width(r) - 1,
{
    lemma_chunks_closed(r);
    let c = scan(r).chunks[0];
    assert(c == (0int, r.len() as int));
    let k = r.len() - 1;
    let pre = r.take(k);
    lemma_chunks_closed(pre);
    lemma_scan_ranges(pre);
    let prev = scan(pre);
    if prev.chunks.len() == scan(r).chunks.len() {
        assert(prev.chunks[0].1 <= pre.len());
    }
    assert(is_closing(r[k]));
    lemma_width_push(r, k);
    assert(r.take(k + 1) =~= r);
}

/// Text made only of whole requests, one after the other, yields each of them once, in
/// order, and ends with the scanner clean at the end of the text; the last boundary is the
/// last character.
proof fn lemma_scan_of_requests(rs: Seq<Seq<char>>)
    requires
        forall|i: int| 0 <= i < rs.len() ==> single_request(#[trigger] rs[i]),
    ensures
        ({
            let c = concat_all(rs);
            let st = scan(c);
            &&& clean_after(c)
            &&& st.chunks.len() == rs.len()
            &&& forall|i: int|
                0 <= i < rs.len() ==> {
                    let r = #[trigger] st.chunks[i];
                    &&& 0 <= r.0 <= r.1 <= c.len()
                    &&& c.subrange(r.0, r.1) == rs[i]
                }
            &&& rs.len() > 0 ==> st.last_req == utf8_width(c) - 1
        }),
    decreases rs.len(),
{
    if rs.len() > 0 {
        let pre = rs.drop_last();
        assert forall|i: int| 0 <= i < pre.len() implies single_request(#[trigger] pre[i]) by {
            assert(pre[i] == rs[i]);
        }
        lemma_scan_of_requests(pre);
        let a = concat_all(pre);
        let r = rs.last();
        assert(single_request(rs[rs.len() - 1]));
        lemma_single_request_clean(r);
        lemma_scan_after_clean(a, r);
        let c = concat_all(rs);
        assert(c == a + r);
        lemma_width_concat(a, r);
        let st = scan(c);
        let d = a.len() as int;
        assert(shift_ranges(scan(r).chunks, d) =~= seq![(d, d + r.len())]);
        assert(st.chunks =~= scan(a).chunks.push((d, d + r.len())));
        assert forall|i: int| 0 <= i < rs.len() implies {
            let q = #[trigger] st.chunks[i];
            &&& 0 <= q.0 <= q.1 <= c.len()
            &&& c.subrange(q.0, q.1) == rs[i]
        } by {
            if i < pre.len() {
                let q = st.chunks[i];
                assert(q == scan(a).chunks[i]);
                assert(c.subrange(q.0, q.1) =~= a.subrange(q.0, q.1));
                assert(rs[i] == pre[i]);
            } else {
                assert(c.subrange(d, d + r.len()) =~= r);
            }
        }
    } else {
        assert(concat_all(rs) == Seq::<char>::empty());
    }
}

/// Text made only of whole requests, one after the other with nothing between or around
/// them, yields each of them once, in order, and the last boundary is the text's last byte.
pub proof fn law_whole_requests_are_each_found_once(buf: Seq<u8>, rs: Seq<Seq<char>>)
    requires
        valid_utf8(buf),
        decode_utf8(buf) == concat_all(rs),
        rs.len() > 0,
        forall|i: int| 0 <= i < rs.len() ==> single_request(#[trigger] rs[i]),
    ensures
        spec_extract_requests(buf) == (rs, buf.len() - 1),
{
    let chars = decode_utf8(buf);
    lemma_scan_of_requests(rs);
    lemma_decode_width(buf);
    let st = scan(chars);
    let found = st.chunks.map_values(|r: (int, int)| chars.subrange(r.0, r.1));
    assert(found =~= rs);
}

/// Number of `"` characters in `s`.
pub open spec fn quote_count(s: Seq<char>) -> nat
    decreases s.len(),
{
    if s.len() == 0 {
        0
    } else {
        quote_count(s.drop_last()) + if s.last() == '"' {
            1nat
        } else {
            0nat
        }
    }
}

/// Bracket nesting depth after `s`: opening brackets count up and closing ones down, those
/// after an odd number of `"` (inside a string literal) not at all.
pub open spec fn nesting(s: Seq<char>) -> int
    decreases s.len(),
{
    if s.len() == 0 {
        0
    } else {
        let p = s.drop_last();
        let c = s.last();
        let outside = quote_count(p) % 2 == 0;
        nesting(p) + if outside && (c == '{' || c == '[') {
            1int
        } else if outside && (c == '}' || c == ']') {
            -1int
        } else {
            0int
        }
    }
}

/// `r` is one object or array as its brackets show, string literals being read from one `"`
/// to the next: it opens with `{` or `[`, stays nested until its last character and closes
/// there. The text of a JSON object or array without backslash escapes is such a value.
pub open spec fn balanced_value(r: Seq<char>) -> bool {
    &&& r.len() > 0
    &&& (r[0] == '{' || r[0] == '[')
    &&& forall|k: int| 1 <= k < r.len() ==> nesting(#[trigger] r.take(k)) >= 1
    &&& nesting(r) == 0
}

proof fn lemma_balanced_prefix(r: Seq<char>, k: int)
    requires
        balanced_value(r),
        0 <= k <= r.len(),
    ensures
        scan(r.take(k)).depth == nesting(r.take(k)),
        scan(r.take(k)).in_str == (quote_count(r.take(k)) % 2 == 1),
        !scan(r.take(k)).is_escaped,
        k < r.len() ==> scan(r.take(k)).chunks.len() == 0 && scan(r.take(k)).start == 0
            && scan(r.take(k)).ever_started == (k >= 1),
        k == r.len() ==> scan(r.take(k)).chunks == seq![(0int, r.len() as int)],
    decreases k,
{
    if k == 0 {
        assert(r.take(0) =~= Seq::<char>::empty());
    } else {
        lemma_balanced_prefix(r, k - 1);
        let t = r.take(k);
        assert(t.take(k - 1) =~= r.take(k - 1));
        assert(t.drop_last() =~= r.take(k - 1));
        assert(t.last() == r[k - 1]);
        assert(t[k - 1] == r[k - 1]);
        if k == 1 {
            assert(r.take(0) =~= Seq::<char>::empty());
        }
        if k < r.len() {
            assert(nesting(r.take(k)) >= 1);
        } else {
            assert(t =~= r);
        }
        if k >= 2 {
            assert(nesting(r.take(k - 1)) >= 1);
        }
    }
}

/// Every balanced value is exactly one request.
pub proof fn law_balanced_value_is_single_request(r: Seq<char>)
    requires
        balanced_value(r),
    ensures
        single_request(r),
{
    lemma_balanced_prefix(r, r.len() as int);
    assert(r.take(r.len() as int) =~= r);
}

/// Text made only of balanced values (such as JSON objects and arrays without backslash
/// escapes), one after the other with nothing between or around them, yields each of them
/// once, in order, and the last boundary is the text's last byte.
pub proof fn law_whole_values_are_each_found_once(buf: Seq<u8>, rs: Seq<Seq<char>>)
    requires
        valid_utf8(buf),
        decode_utf8(buf) == concat_all(rs),
        rs.len() > 0,
        forall|i: int| 0 <= i < rs.len() ==> balanced_value(#[trigger] rs[i]),
    ensures
        spec_extract_requests(buf) == (rs, buf.len() - 1),
{
    assert forall|i: int| 0 <= i < rs.len() implies single_request(#[trigger] rs[i]) by {
        law_balanced_value_is_single_request(rs[i]);
    }
    law_whole_requests_are_each_found_once(buf, rs);
}

} // verus!
