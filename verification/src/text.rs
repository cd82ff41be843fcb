//! Text as UTF-8 bytes. Every contract of this library speaks of a string
//! through the bytes that encode it, `encode_utf8(s@)`: offsets into a line
//! are byte offsets, and what is written to a control file is bytes.

use vstd::prelude::*;
use vstd::string::StringSliceAdditionalSpecFns;
use vstd::utf8::*;

verus! {

/// Encoding distributes over concatenation.
pub proof fn lemma_utf8_concat(a: Seq<char>, b: Seq<char>)
    ensures
        encode_utf8(a + b) == encode_utf8(a) + encode_utf8(b),
    decreases a.len(),
{
    if a.len() == 0 {
        assert(a + b =~= b);
        assert(encode_utf8(a) + encode_utf8(b) =~= encode_utf8(b));
    } else {
        lemma_utf8_concat(a.drop_first(), b);
        assert((a + b).drop_first() =~= a.drop_first() + b);
        assert(encode_utf8(a + b) =~= encode_utf8(a) + encode_utf8(b));
    }
}

/// A string that holds `t`.
pub fn text_from(t: &str) -> (r: String)
    ensures
        encode_utf8(r@) == encode_utf8(t@),
{
    t.to_owned()
}

/// A copy of `s`.
pub fn text_copy(s: &String) -> (r: String)
    ensures
        encode_utf8(r@) == encode_utf8(s@),
{
    s.clone()
}

/// Appends `t` to `out`.
pub fn push_text(out: &mut String, t: &str)
    ensures
        encode_utf8(final(out)@) == encode_utf8(old(out)@) + encode_utf8(t@),
{
    proof {
        lemma_utf8_concat(out@, t@);
    }
    out.append(t);
}

/// Whether two byte strings are equal.
pub fn bytes_equal(a: &[u8], b: &[u8]) -> (r: bool)
    ensures
        r == (a@ == b@),
{
    if a.len() != b.len() {
        return false;
    }
    let mut i: usize = 0;
    while i < a.len()
        invariant
            a.len() == b.len(),
            i <= a.len(),
            forall|j: int| 0 <= j < i ==> a@[j] == b@[j],
        decreases a.len() - i,
    {
        if a[i] != b[i] {
            return false;
        }
        i = i + 1;
    }
    assert(a@ =~= b@);
    true
}

/// Whether `line` holds the byte `b`.
pub fn holds_byte(line: &str, b: u8) -> (r: bool)
    ensures
        r == encode_utf8(line@).contains(b),
{
    let bytes = line.as_bytes();
    let mut i: usize = 0;
    while i < bytes.len()
        invariant
            i <= bytes.len(),
            bytes@ == encode_utf8(line@),
            forall|j: int| 0 <= j < i ==> bytes@[j] != b,
        decreases bytes.len() - i,
    {
        if bytes[i] == b {
            return true;
        }
        i = i + 1;
    }
    false
}

/// The offset of the first `marker` in `s`, or the length of `s` when it
/// holds none.
pub open spec fn marker_position(s: Seq<u8>, marker: u8) -> int
    decreases s.len(),
{
    if s.len() == 0 || s[0] == marker {
        0
    } else {
        1 + marker_position(s.drop_first(), marker)
    }
}

/// The part of `s` before its first `marker`; all of `s` when it holds none.
pub open spec fn before_marker(s: Seq<u8>, marker: u8) -> Seq<u8> {
    s.take(marker_position(s, marker))
}

/// `marker_position` is the one offset with no marker before it that is
/// either the end or a marker.
pub proof fn lemma_marker_position(s: Seq<u8>, marker: u8, k: int)
    requires
        0 <= k <= s.len(),
        forall|j: int| 0 <= j < k ==> s[j] != marker,
        k == s.len() || s[k] == marker,
    ensures
        marker_position(s, marker) == k,
    decreases s.len(),
{
    if k > 0 {
        let rest = s.drop_first();
        assert forall|j: int| 0 <= j < k - 1 implies rest[j] != marker by {
            assert(rest[j] == s[j + 1]);
        }
        lemma_marker_position(rest, marker, k - 1);
    }
}

/// The offset of the first `marker` at or after `from`, or the length of `s`
/// when there is none.
pub fn find_marker(s: &[u8], from: usize, marker: u8) -> (r: usize)
    ensures
        r <= s.len(),
        from <= s.len() ==> from <= r && r == from + marker_position(
            s@.skip(from as int),
            marker,
        ),
        from > s.len() ==> r == s.len(),
        r < s.len() ==> s@[r as int] == marker,
        forall|j: int| from <= j < r ==> s@[j] != marker,
{
    if from > s.len() {
        return s.len();
    }
    let mut i: usize = from;
    while i < s.len() && s[i] != marker
        invariant
            from <= i <= s.len(),
            forall|j: int| from <= j < i ==> s@[j] != marker,
        decreases s.len() - i,
    {
        i = i + 1;
    }
    proof {
        let tail = s@.skip(from as int);
        assert forall|j: int| 0 <= j < i - from implies tail[j] != marker by {
            assert(tail[j] == s@[from + j]);
        }
        lemma_marker_position(tail, marker, i - from);
    }
    i
}

/// An ASCII white-space character: space, tab, line feed, vertical tab,
/// form feed or carriage return.
pub open spec fn is_ascii_space(b: u8) -> bool {
    b == 0x20 || 0x09 <= b <= 0x0d
}

/// The two-byte encodings of white space: U+0085 and U+00A0.
pub open spec fn is_space_pair(a: u8, b: u8) -> bool {
    a == 0xc2 && (b == 0x85 || b == 0xa0)
}

/// The three-byte encodings of white space: U+1680, U+2000 to U+200A,
/// U+2028, U+2029, U+202F, U+205F and U+3000.
pub open spec fn is_space_triple(a: u8, b: u8, c: u8) -> bool {
    ||| a == 0xe1 && b == 0x9a && c == 0x80
    ||| a == 0xe2 && b == 0x80 && (0x80 <= c <= 0x8a || c == 0xa8 || c == 0xa9 || c == 0xaf)
    ||| a == 0xe2 && b == 0x81 && c == 0x9f
    ||| a == 0xe3 && b == 0x80 && c == 0x80
}

/// The length of the white-space character that `s` begins with, 0 when it
/// begins with none.
pub open spec fn leading_space_len(s: Seq<u8>) -> int {
    if s.len() >= 1 && is_ascii_space(s[0]) {
        1
    } else if s.len() >= 2 && is_space_pair(s[0], s[1]) {
        2
    } else if s.len() >= 3 && is_space_triple(s[0], s[1], s[2]) {
        3
    } else {
        0
    }
}

/// The length of the white-space character that `s` ends with, 0 when it
/// ends with none.
pub open spec fn trailing_space_len(s: Seq<u8>) -> int {
    let n = s.len() as int;
    if n >= 1 && is_ascii_space(s[n - 1]) {
        1
    } else if n >= 2 && is_space_pair(s[n - 2], s[n - 1]) {
        2
    } else if n >= 3 && is_space_triple(s[n - 3], s[n - 2], s[n - 1]) {
        3
    } else {
        0
    }
}

/// `s` without the white space it begins with.
pub open spec fn trim_start(s: Seq<u8>) -> Seq<u8>
    decreases s.len(),
{
    let n = leading_space_len(s);
    if n > 0 {
        trim_start(s.skip(n))
    } else {
        s
    }
}

/// `s` without the white space it ends with.
pub open spec fn trim_end(s: Seq<u8>) -> Seq<u8>
    decreases s.len(),
{
    let n = trailing_space_len(s);
    if n > 0 {
        trim_end(s.take(s.len() - n))
    } else {
        s
    }
}

/// `s` without the Unicode white space at either end, as `str::trim` leaves
/// a string.
pub open spec fn trim(s: Seq<u8>) -> Seq<u8> {
    trim_end(trim_start(s))
}

fn ascii_space(b: u8) -> (r: bool)
    ensures
        r == is_ascii_space(b),
{
    b == 0x20 || (0x09 <= b && b <= 0x0d)
}

fn space_pair(a: u8, b: u8) -> (r: bool)
    ensures
        r == is_space_pair(a, b),
{
    a == 0xc2 && (b == 0x85 || b == 0xa0)
}

fn space_triple(a: u8, b: u8, c: u8) -> (r: bool)
    ensures
        r == is_space_triple(a, b, c),
{
    (a == 0xe1 && b == 0x9a && c == 0x80) || (a == 0xe2 && b == 0x80 && ((0x80 <= c && c <= 0x8a)
        || c == 0xa8 || c == 0xa9 || c == 0xaf)) || (a == 0xe2 && b == 0x81 && c == 0x9f) || (a
        == 0xe3 && b == 0x80 && c == 0x80)
}

/// The bounds of `trim(s)` within `s`.
pub fn trim_bounds(s: &[u8]) -> (r: (usize, usize))
    ensures
        r.0 <= r.1 <= s.len(),
        s@.subrange(r.0 as int, r.1 as int) == trim(s@),
{
    let mut start: usize = 0;
    assert(s@.skip(0) =~= s@);
    loop
        invariant_except_break
            start <= s.len(),
            trim_start(s@) == trim_start(s@.skip(start as int)),
        ensures
            start <= s.len(),
            trim_start(s@) == s@.skip(start as int),
        decreases s.len() - start,
    {
        let ghost here = s@.skip(start as int);
        let left: usize = s.len() - start;
        let n: usize = if left >= 1 && ascii_space(s[start]) {
            1
        } else if left >= 2 && space_pair(s[start], s[start + 1]) {
            2
        } else if left >= 3 && space_triple(s[start], s[start + 1], s[start + 2]) {
            3
        } else {
            0
        };
        assert(n == leading_space_len(here));
        if n == 0 {
            break ;
        }
        assert(here.skip(n as int) =~= s@.skip(start + n));
        start = start + n;
    }
    let ghost kept = s@.skip(start as int);
    let mut end: usize = s.len();
    assert(kept.take(end - start) =~= kept);
    loop
        invariant_except_break
            start <= end <= s.len(),
            kept == s@.skip(start as int),
            trim_end(kept) == trim_end(kept.take(end - start)),
        ensures
            start <= end <= s.len(),
            kept == s@.skip(start as int),
            trim_end(kept) == kept.take(end - start),
        decreases end - start,
    {
        let ghost here = kept.take(end - start);
        let left: usize = end - start;
        let n: usize = if left >= 1 && ascii_space(s[end - 1]) {
            1
        } else if left >= 2 && space_pair(s[end - 2], s[end - 1]) {
            2
        } else if left >= 3 && space_triple(s[end - 3], s[end - 2], s[end - 1]) {
            3
        } else {
            0
        };
        assert(n == trailing_space_len(here));
        if n == 0 {
            break ;
        }
        assert(here.take(here.len() - n) =~= kept.take(end - n - start));
        end = end - n;
    }
    assert(s@.subrange(start as int, end as int) =~= kept.take(end - start));
    (start, end)
}

/// `line` without one carriage return at its end.
pub open spec fn strip_cr(line: Seq<u8>) -> Seq<u8> {
    if line.len() > 0 && line.last() == 0x0d {
        line.drop_last()
    } else {
        line
    }
}

/// The lines of `t`. A line ends at a line feed; a carriage return just
/// before that line feed is not part of the line. What follows the last
/// line feed is a line of its own unless it is empty.
pub open spec fn split_lines(t: Seq<u8>) -> Seq<Seq<u8>>
    decreases t.len(),
{
    let n = marker_position(t, 0x0a);
    if t.len() == 0 {
        Seq::empty()
    } else if 0 <= n < t.len() {
        seq![strip_cr(t.take(n))] + split_lines(t.skip(n + 1))
    } else {
        seq![t]
    }
}

/// The text whose lines are `lines`, each ended by a line feed.
pub open spec fn join_lines(lines: Seq<Seq<u8>>) -> Seq<u8>
    decreases lines.len(),
{
    if lines.len() == 0 {
        Seq::empty()
    } else {
        lines[0] + seq![0x0au8] + join_lines(lines.drop_first())
    }
}

/// A line that survives being written out and split again: it holds no line
/// feed and does not end with a carriage return.
pub open spec fn is_plain_line(line: Seq<u8>) -> bool {
    &&& forall|i: int| 0 <= i < line.len() ==> line[i] != 0x0a
    &&& !(line.len() > 0 && line.last() == 0x0d)
}

/// Splitting what `join_lines` wrote gives the lines back.
pub proof fn lemma_split_join(lines: Seq<Seq<u8>>)
    requires
        forall|i: int| 0 <= i < lines.len() ==> is_plain_line(#[trigger] lines[i]),
    ensures
        split_lines(join_lines(lines)) == lines,
    decreases lines.len(),
{
    if lines.len() > 0 {
        let first = lines[0];
        let rest = lines.drop_first();
        let t = join_lines(lines);
        assert(is_plain_line(first));
        assert forall|i: int| 0 <= i < rest.len() implies is_plain_line(#[trigger] rest[i]) by {
            assert(rest[i] == lines[i + 1]);
        }
        lemma_split_join(rest);
        assert forall|j: int| 0 <= j < first.len() implies t[j] != 0x0a by {
            assert(t[j] == first[j]);
        }
        assert(t[first.len() as int] == 0x0a);
        lemma_marker_position(t, 0x0a, first.len() as int);
        assert(t.take(first.len() as int) =~= first);
        assert(t.skip(first.len() as int + 1) =~= join_lines(rest));
        assert(seq![first] + rest =~= lines);
    }
}

/// The encodings of a sequence of strings.
pub open spec fn lines_bytes(lines: Seq<String>) -> Seq<Seq<u8>> {
    Seq::new(lines.len(), |i: int| encode_utf8(lines[i]@))
}

/// Splits `text` into its lines.
pub fn lines_of(text: &str) -> (lines: Vec<String>)
    ensures
        lines_bytes(lines@) == split_lines(encode_utf8(text@)),
{
    let mut lines: Vec<String> = Vec::new();
    let mut rest: &str = text;
    assert(lines_bytes(lines@) + split_lines(encode_utf8(rest@)) =~= split_lines(
        encode_utf8(text@),
    ));
    while rest.as_bytes().len() > 0
        invariant
            lines_bytes(lines@) + split_lines(encode_utf8(rest@)) == split_lines(
                encode_utf8(text@),
            ),
        decreases encode_utf8(rest@).len(),
    {
        let bytes = rest.as_bytes();
        let ghost t = encode_utf8(rest@);
        let ghost before = lines_bytes(lines@);
        let n: usize = find_marker(bytes, 0, 0x0a);
        assert(t.skip(0) =~= t);
        proof {
            encode_utf8_valid_utf8(rest@);
        }
        assert(rest.spec_bytes() == t);
        if n == bytes.len() {
            lines.push(rest.to_owned());
            assert(lines_bytes(lines@) =~= before + seq![t]);
            assert(before + seq![t] + split_lines(Seq::<u8>::empty()) =~= before + seq![t]);
            proof {
                is_char_boundary_start_end_of_seq(t);
            }
            rest = rest.split_at(bytes.len()).1;
            assert(rest.spec_bytes() =~= Seq::<u8>::empty());
        } else {
            proof {
                is_char_boundary_iff_not_is_continuation_byte(t, n as int);
            }
            let (head, tail) = rest.split_at(n);
            let ghost tail_bytes = encode_utf8(tail@);
            proof {
                encode_utf8_valid_utf8(tail@);
                assert(tail_bytes[0] == 0x0a);
                reveal_with_fuel(is_char_boundary, 2);
                assert(is_char_boundary(tail_bytes, 1));
            }
            let after = tail.split_at(1).1;
            let head_bytes = head.as_bytes();
            let line: &str = if head_bytes.len() > 0 && head_bytes[head_bytes.len() - 1] == 0x0d {
                proof {
                    encode_utf8_valid_utf8(head@);
                    is_char_boundary_iff_not_is_continuation_byte(
                        encode_utf8(head@),
                        head_bytes.len() - 1,
                    );
                }
                head.split_at(head_bytes.len() - 1).0
            } else {
                head
            };
            assert(encode_utf8(line@) =~= strip_cr(t.take(n as int)));
            assert(encode_utf8(after@) =~= t.skip(n + 1));
            lines.push(line.to_owned());
            assert(lines_bytes(lines@) =~= before + seq![strip_cr(t.take(n as int))]);
            assert(before + (seq![strip_cr(t.take(n as int))] + split_lines(t.skip(n + 1)))
                =~= before + seq![strip_cr(t.take(n as int))] + split_lines(t.skip(n + 1)));
            rest = after;
        }
    }
    assert(rest.spec_bytes() == encode_utf8(rest@));
    assert(lines_bytes(lines@) + split_lines(encode_utf8(rest@)) =~= lines_bytes(lines@));
    lines
}

} // verus!
