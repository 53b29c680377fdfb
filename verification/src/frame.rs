//! Classification of one raw device line into a frame.
//!
//! A line is first trimmed of surrounding whitespace.  An empty result is
//! no event at all; the fixed control keywords become control frames; any
//! other line is split on commas and every segment must parse as an
//! unsigned 16-bit integer for the line to count as telemetry.  A line
//! that matches neither pattern is malformed, which is a valid outcome,
//! not an error: classification is total.

use vstd::prelude::*;
use vstd::slice::{slice_subrange, slice_to_vec};

verus! {

/// The control keywords the device can send as bare lines.
#[derive(Clone, Copy, PartialEq, Eq, Structural, Debug)]
pub enum ControlTag {
    Start,
    Buzzer,
}

/// One classified unit of input derived from a single line of device
/// output.  Constructed by `parse_line`, consumed immediately, never
/// persisted.
#[derive(Debug, PartialEq, Eq)]
pub enum Frame {
    /// A recognised control keyword.
    Control(ControlTag),
    /// A comma-separated list of sensor readings, all in range.
    Telemetry(Vec<u16>),
    /// A non-empty line that matched neither pattern; carries the
    /// offending trimmed text.
    Malformed(Vec<u8>),
}

/// Mathematical image of a `Frame`.
pub enum FrameView {
    Control(ControlTag),
    Telemetry(Seq<u16>),
    Malformed(Seq<u8>),
}

impl View for Frame {
    type V = FrameView;

    open spec fn view(&self) -> FrameView {
        match self {
            Frame::Control(t) => FrameView::Control(*t),
            Frame::Telemetry(v) => FrameView::Telemetry(v@),
            Frame::Malformed(r) => FrameView::Malformed(r@),
        }
    }
}

/// ASCII whitespace, as found around device lines (space, tab, CR, LF).
pub open spec fn is_space(b: u8) -> bool {
    b == 32 || b == 9 || b == 10 || b == 13
}

/// The sequence with leading whitespace removed.
pub open spec fn trim_front(s: Seq<u8>) -> Seq<u8>
    decreases s.len(),
{
    if s.len() > 0 && is_space(s[0]) {
        trim_front(s.skip(1))
    } else {
        s
    }
}

/// The sequence with trailing whitespace removed.
pub open spec fn trim_back(s: Seq<u8>) -> Seq<u8>
    decreases s.len(),
{
    if s.len() > 0 && is_space(s.last()) {
        trim_back(s.drop_last())
    } else {
        s
    }
}

/// The sequence with whitespace removed from both ends.
pub open spec fn trimmed(s: Seq<u8>) -> Seq<u8> {
    trim_back(trim_front(s))
}

proof fn lemma_trim_front_at(s: Seq<u8>, lo: int)
    requires
        0 <= lo <= s.len(),
        forall|i: int| 0 <= i < lo ==> is_space(s[i]),
        lo == s.len() || !is_space(s[lo]),
    ensures
        trim_front(s) == s.skip(lo),
    decreases lo,
{
    if lo == 0 {
        assert(s.skip(0) =~= s);
    } else {
        lemma_trim_front_at(s.skip(1), lo - 1);
        assert(s.skip(1).skip(lo - 1) =~= s.skip(lo));
    }
}

proof fn lemma_trim_back_at(s: Seq<u8>, hi: int)
    requires
        0 <= hi <= s.len(),
        forall|i: int| hi <= i < s.len() ==> is_space(s[i]),
        hi == 0 || !is_space(s[hi - 1]),
    ensures
        trim_back(s) == s.take(hi),
    decreases s.len() - hi,
{
    if hi == s.len() {
        assert(s.take(hi) =~= s);
    } else {
        lemma_trim_back_at(s.drop_last(), hi);
        assert(s.drop_last().take(hi) =~= s.take(hi));
    }
}

/// An ASCII decimal digit.
pub open spec fn is_digit(b: u8) -> bool {
    48 <= b <= 57
}

/// The number written by a sequence of decimal digits (most significant
/// first); an empty sequence writes zero.
pub open spec fn digits_value(s: Seq<u8>) -> int
    decreases s.len(),
{
    if s.len() == 0 {
        0
    } else {
        digits_value(s.drop_last()) * 10 + (s.last() - 48)
    }
}

pub open spec fn all_digits(s: Seq<u8>) -> bool {
    forall|i: int| 0 <= i < s.len() ==> is_digit(s[i])
}

/// The digits of a segment, once an optional leading `+` sign is gone.
pub open spec fn digit_seq(s: Seq<u8>) -> Seq<u8> {
    if s.len() > 0 && s[0] == 43 {
        s.skip(1)
    } else {
        s
    }
}

/// A segment that an unsigned 16-bit parse accepts: an optional `+`
/// sign, then at least one digit, writing a value that fits.
pub open spec fn is_u16_segment(s: Seq<u8>) -> bool {
    let d = digit_seq(s);
    d.len() > 0 && all_digits(d) && digits_value(d) <= u16::MAX
}

/// The value of a valid segment.
pub open spec fn segment_value(s: Seq<u8>) -> int {
    digits_value(digit_seq(s))
}

proof fn lemma_digits_value_nonneg(s: Seq<u8>)
    requires
        all_digits(s),
    ensures
        digits_value(s) >= 0,
    decreases s.len(),
{
    if s.len() > 0 {
        assert(all_digits(s.drop_last()));
        lemma_digits_value_nonneg(s.drop_last());
    }
}

/// Once a prefix of a digit string already writes more than a bound,
/// the whole string does too.
proof fn lemma_digits_value_prefix_grows(s: Seq<u8>, k: int)
    requires
        all_digits(s),
        0 <= k <= s.len(),
    ensures
        digits_value(s) >= digits_value(s.take(k)),
    decreases s.len() - k,
{
    if k == s.len() {
        assert(s.take(k) =~= s);
    } else {
        lemma_digits_value_prefix_grows(s, k + 1);
        let t = s.take(k + 1);
        assert(t.drop_last() =~= s.take(k));
        assert(all_digits(s.take(k)));
        lemma_digits_value_nonneg(s.take(k));
        assert(digits_value(t) == digits_value(s.take(k)) * 10 + (t.last() - 48));
    }
}

/// Parse one comma-separated segment as an unsigned 16-bit integer.
/// Accepts exactly what `is_u16_segment` describes and returns the
/// written value; anything else is rejected.
pub fn parse_u16(seg: &[u8]) -> (r: Option<u16>)
    ensures
        r is Some <==> is_u16_segment(seg@),
        r matches Some(v) ==> v == segment_value(seg@),
{
    let n = seg.len();
    let mut i: usize = 0;
    if n > 0 && seg[0] == 43 {
        i = 1;
    }
    let ghost d = digit_seq(seg@);
    let ghost start = i as int;
    proof {
        assert(d =~= seg@.skip(start));
    }
    if i == n {
        // no digits at all
        return None;
    }
    let mut acc: u32 = 0;
    while i < n
        invariant
            start <= i <= n,
            n == seg@.len(),
            d == seg@.skip(start),
            d == digit_seq(seg@),
            0 <= start <= 1,
            all_digits(d.take(i - start)),
            acc == digits_value(d.take(i - start)),
            acc <= 65535,
        decreases n - i,
    {
        let b = seg[i];
        if b < 48 || b > 57 {
            proof {
                assert(d[i - start] == seg@[i as int]);
                assert(!is_digit(d[i - start]));
            }
            return None;
        }
        let next: u32 = acc * 10 + (b - 48) as u32;
        proof {
            let t = d.take(i - start + 1);
            assert(t.drop_last() =~= d.take(i - start));
            assert(t.last() == seg@[i as int]);
            assert(digits_value(t) == acc * 10 + (b - 48));
        }
        if next > 65535 {
            proof {
                let t = d.take(i - start + 1);
                assert forall|j: int| 0 <= j < t.len() implies is_digit(t[j]) by {
                    if j < t.len() - 1 {
                        assert(t[j] == d.take(i - start)[j]);
                    } else {
                        assert(t[j] == seg@[i as int]);
                    }
                }
                lemma_digits_value_prefix_grows_helper(d, i - start + 1);
            }
            return None;
        }
        acc = next;
        i = i + 1;
    }
    proof {
        assert(d.take(n - start) =~= d);
    }
    Some(acc as u16)
}

/// If some prefix of an otherwise unknown digit string already writes
/// more than `u16::MAX`, the segment is not a valid one.
proof fn lemma_digits_value_prefix_grows_helper(d: Seq<u8>, k: int)
    requires
        0 <= k <= d.len(),
        all_digits(d.take(k)),
        digits_value(d.take(k)) > u16::MAX,
    ensures
        !(all_digits(d) && digits_value(d) <= u16::MAX),
{
    if all_digits(d) {
        lemma_digits_value_prefix_grows(d, k);
    }
}

/// The segments of a line split on commas.  An empty line has one empty
/// segment; every comma separates two (possibly empty) segments.
pub open spec fn split_commas(s: Seq<u8>) -> Seq<Seq<u8>>
    decreases s.len(),
{
    if s.len() == 0 {
        seq![Seq::<u8>::empty()]
    } else if s[0] == 44 {
        seq![Seq::<u8>::empty()] + split_commas(s.skip(1))
    } else {
        let rest = split_commas(s.skip(1));
        rest.update(0, seq![s[0]] + rest[0])
    }
}

pub proof fn lemma_split_commas_len(s: Seq<u8>)
    ensures
        split_commas(s).len() >= 1,
    decreases s.len(),
{
    if s.len() > 0 {
        lemma_split_commas_len(s.skip(1));
    }
}

/// A line without commas is one single segment.
proof fn lemma_split_no_comma(s: Seq<u8>)
    requires
        forall|i: int| 0 <= i < s.len() ==> s[i] != 44,
    ensures
        split_commas(s) == seq![s],
    decreases s.len(),
{
    if s.len() == 0 {
        assert(split_commas(s) =~~= seq![s]);
    } else {
        lemma_split_no_comma(s.skip(1));
        assert(seq![s[0]] + s.skip(1) =~= s);
        assert(split_commas(s) =~~= seq![s]);
    }
}

/// Splitting at the first comma: the head segment is everything before
/// it, and the rest of the line splits on its own.
proof fn lemma_split_first_comma(s: Seq<u8>, j: int)
    requires
        0 <= j < s.len(),
        s[j] == 44,
        forall|i: int| 0 <= i < j ==> s[i] != 44,
    ensures
        split_commas(s) == seq![s.take(j)] + split_commas(s.skip(j + 1)),
    decreases j,
{
    if j == 0 {
        assert(s.take(0) =~= Seq::<u8>::empty());
    } else {
        let tail = s.skip(1);
        assert(tail[j - 1] == 44);
        assert(forall|i: int| 0 <= i < j - 1 ==> tail[i] != 44);
        lemma_split_first_comma(tail, j - 1);
        assert(tail.take(j - 1) =~= s.subrange(1, j));
        assert(tail.skip(j) =~= s.skip(j + 1));
        let rest = split_commas(tail);
        lemma_split_commas_len(s.skip(j + 1));
        assert(seq![s[0]] + s.subrange(1, j) =~= s.take(j));
        assert(rest.update(0, seq![s[0]] + rest[0]) =~~= seq![s.take(j)] + split_commas(
            s.skip(j + 1),
        ));
    }
}

/// Every comma-separated segment of the line parses as an unsigned
/// 16-bit integer.
pub open spec fn all_segments_valid(s: Seq<u8>) -> bool {
    forall|i: int|
        0 <= i < split_commas(s).len() ==> is_u16_segment(#[trigger] split_commas(s)[i])
}

/// The readings written on a telemetry line, one per segment, in order.
pub open spec fn telemetry_values(s: Seq<u8>) -> Seq<u16> {
    split_commas(s).map(|i: int, seg: Seq<u8>| segment_value(seg) as u16)
}

/// Parse a whole line as comma-separated unsigned 16-bit readings.
/// Succeeds exactly when every segment is a valid reading, and then
/// returns the readings in line order.
pub fn parse_telemetry(line: &[u8]) -> (r: Option<Vec<u16>>)
    ensures
        r is Some <==> all_segments_valid(line@),
        r matches Some(v) ==> v@ == telemetry_values(line@),
{
    let n = line.len();
    let ghost segs = split_commas(line@);
    proof {
        lemma_split_commas_len(line@);
        assert(line@.skip(0) =~= line@);
    }
    let mut vals: Vec<u16> = Vec::new();
    let mut pos: usize = 0;
    loop
        invariant
            pos <= n,
            n == line@.len(),
            segs == split_commas(line@),
            vals@.len() <= segs.len(),
            segs =~~= segs.take(vals@.len() as int) + split_commas(line@.skip(pos as int)),
            forall|i: int|
                0 <= i < vals@.len() ==> is_u16_segment(#[trigger] segs[i]) && vals@[i]
                    == segment_value(segs[i]),
        decreases n - pos,
    {
        let ghost k = vals@.len() as int;
        let ghost suffix = line@.skip(pos as int);
        proof {
            lemma_split_commas_len(suffix);
        }
        let mut j: usize = pos;
        while j < n && line[j] != 44
            invariant
                pos <= j <= n,
                n == line@.len(),
                forall|m: int| pos <= m < j ==> line@[m] != 44,
            decreases n - j,
        {
            j = j + 1;
        }
        let seg = slice_subrange(line, pos, j);
        proof {
            if j < n {
                assert(suffix[j - pos] == 44);
                assert(forall|i: int| 0 <= i < j - pos ==> suffix[i] != 44);
                lemma_split_first_comma(suffix, j - pos);
                assert(suffix.take(j - pos) =~= seg@);
                assert(suffix.skip(j - pos + 1) =~= line@.skip(j + 1));
            } else {
                assert(forall|i: int| 0 <= i < suffix.len() ==> suffix[i] != 44);
                lemma_split_no_comma(suffix);
                assert(suffix =~= seg@);
            }
            assert(segs[k] == seg@);
        }
        let parsed = parse_u16(seg);
        match parsed {
            None => {
                proof {
                    assert(!is_u16_segment(segs[k]));
                }
                return None;
            },
            Some(v) => {
                vals.push(v);
            },
        }
        if j == n {
            proof {
                assert(segs =~~= segs.take(vals@.len() as int));
                assert(vals@ =~= telemetry_values(line@));
            }
            return Some(vals);
        }
        pos = j + 1;
        proof {
            assert(segs.take(k + 1) =~~= segs.take(k) + seq![segs[k]]);
        }
    }
}

/// Remove surrounding ASCII whitespace from a line.
pub fn trim(line: &[u8]) -> (r: &[u8])
    ensures
        r@ == trimmed(line@),
{
    let n = line.len();
    let mut lo: usize = 0;
    while lo < n && (line[lo] == 32 || line[lo] == 9 || line[lo] == 10 || line[lo] == 13)
        invariant
            0 <= lo <= n,
            n == line@.len(),
            forall|i: int| 0 <= i < lo ==> is_space(line@[i]),
        decreases n - lo,
    {
        lo = lo + 1;
    }
    proof {
        lemma_trim_front_at(line@, lo as int);
    }
    let mut hi: usize = n;
    while hi > lo && (line[hi - 1] == 32 || line[hi - 1] == 9 || line[hi - 1] == 10 || line[hi - 1]
        == 13)
        invariant
            lo <= hi <= n,
            n == line@.len(),
            forall|i: int| 0 <= i < lo ==> is_space(line@[i]),
            lo == n || !is_space(line@[lo as int]),
            forall|i: int| hi <= i < n ==> is_space(line@[i]),
        decreases hi,
    {
        hi = hi - 1;
    }
    proof {
        lemma_trim_back_at(line@.skip(lo as int), hi - lo);
        assert(line@.skip(lo as int).take(hi - lo) =~= line@.subrange(lo as int, hi as int));
    }
    slice_subrange(line, lo, hi)
}

/// The bytes of the control keyword `buzzer`.
pub open spec fn buzzer_kw() -> Seq<u8> {
    seq![98u8, 117u8, 122u8, 122u8, 101u8, 114u8]
}

/// The bytes of the control keyword `start`.
pub open spec fn start_kw() -> Seq<u8> {
    seq![115u8, 116u8, 97u8, 114u8, 116u8]
}

fn is_buzzer_kw(t: &[u8]) -> (r: bool)
    ensures
        r <==> t@ == buzzer_kw(),
{
    if t.len() != 6 {
        return false;
    }
    let r = t[0] == 98 && t[1] == 117 && t[2] == 122 && t[3] == 122 && t[4] == 101 && t[5] == 114;
    proof {
        if r {
            assert(t@ =~= buzzer_kw());
        }
    }
    r
}

fn is_start_kw(t: &[u8]) -> (r: bool)
    ensures
        r <==> t@ == start_kw(),
{
    if t.len() != 5 {
        return false;
    }
    let r = t[0] == 115 && t[1] == 116 && t[2] == 97 && t[3] == 114 && t[4] == 116;
    proof {
        if r {
            assert(t@ =~= start_kw());
        }
    }
    r
}

/// How one trimmed, non-empty line is classified: control keywords take
/// precedence, then a telemetry parse, and anything left is malformed.
pub open spec fn classify_spec(t: Seq<u8>) -> FrameView {
    if t == buzzer_kw() {
        FrameView::Control(ControlTag::Buzzer)
    } else if t == start_kw() {
        FrameView::Control(ControlTag::Start)
    } else if all_segments_valid(t) {
        FrameView::Telemetry(telemetry_values(t))
    } else {
        FrameView::Malformed(t)
    }
}

/// Classify one already-trimmed, non-empty line.
pub fn classify(t: &[u8]) -> (f: Frame)
    ensures
        f@ == classify_spec(t@),
{
    if is_buzzer_kw(t) {
        return Frame::Control(ControlTag::Buzzer);
    }
    if is_start_kw(t) {
        return Frame::Control(ControlTag::Start);
    }
    match parse_telemetry(t) {
        Some(vals) => Frame::Telemetry(vals),
        None => Frame::Malformed(slice_to_vec(t)),
    }
}

/// Classify one raw device line.  The classification is a function of
/// the line's bytes alone — total and deterministic — and a line that is
/// empty once trimmed yields no frame at all.
pub fn parse_line(line: &[u8]) -> (r: Option<Frame>)
    ensures
        r is Some <==> trimmed(line@).len() > 0,
        r matches Some(f) ==> f@ == classify_spec(trimmed(line@)),
{
    let t = trim(line);
    if t.len() == 0 {
        return None;
    }
    Some(classify(t))
}

/// Whether two byte strings are equal, byte for byte.
pub fn bytes_eq(a: &[u8], b: &[u8]) -> (r: bool)
    ensures
        r <==> a@ == b@,
{
    if a.len() != b.len() {
        return false;
    }
    let n = a.len();
    let mut i: usize = 0;
    while i < n
        invariant
            i <= n,
            n == a@.len() == b@.len(),
            forall|j: int| 0 <= j < i ==> a@[j] == b@[j],
        decreases n - i,
    {
        if a[i] != b[i] {
            return false;
        }
        i = i + 1;
    }
    proof {
        assert(a@ =~= b@);
    }
    true
}

} // verus!
