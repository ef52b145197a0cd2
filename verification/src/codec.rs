//! Line-protocol framing and parsing for engine responses.
//!
//! A word-oriented engine answers one word with a block of lines, each line
//! tab-separated as `original TAB candidate TAB weight`, the block closed by
//! a blank line.  The codec scans a byte stream for a terminator, splits a
//! block into lines and fields, validates the weight's decimal form, and
//! skips malformed records instead of failing the whole block.

use vstd::prelude::*;

verus! {

use vstd::slice::{slice_subrange, slice_to_vec};
use vstd::string::StringSliceAdditionalSpecFns;
use vstd::utf8::{valid_utf8, decode_utf8};

/// Line terminator byte.
pub const NL: u8 = 10;

/// Field separator byte.
pub const TAB: u8 = 9;

/// Index of the first occurrence of `sep` in `s`, or -1 when absent.
pub open spec fn find_first(s: Seq<u8>, sep: u8) -> int
    decreases s.len(),
{
    if s.len() == 0 {
        -1
    } else if s[0] == sep {
        0
    } else {
        let r = find_first(s.drop_first(), sep);
        if r < 0 {
            -1
        } else {
            r + 1
        }
    }
}

/// When `find_first` reports an index, that index holds `sep` and nothing
/// before it does; when it reports -1, `sep` does not occur.
pub proof fn lemma_find_first_props(s: Seq<u8>, sep: u8)
    ensures
        find_first(s, sep) == -1 ==> forall|j: int| 0 <= j < s.len() ==> s[j] != sep,
        find_first(s, sep) != -1 ==> 0 <= find_first(s, sep) < s.len() && s[find_first(s, sep)]
            == sep && forall|j: int| 0 <= j < find_first(s, sep) ==> s[j] != sep,
    decreases s.len(),
{
    if s.len() > 0 && s[0] != sep {
        lemma_find_first_props(s.drop_first(), sep);
        assert forall|j: int| 1 <= j < s.len() implies s[j] == s.drop_first()[j - 1] by {}
    }
}

/// The first occurrence determines `find_first`.
pub proof fn lemma_find_first_at(s: Seq<u8>, sep: u8, k: int)
    requires
        0 <= k < s.len(),
        s[k] == sep,
        forall|j: int| 0 <= j < k ==> s[j] != sep,
    ensures
        find_first(s, sep) == k,
    decreases k,
{
    if k > 0 {
        assert forall|j: int| 0 <= j < k - 1 implies s.drop_first()[j] != sep by {
            assert(s.drop_first()[j] == s[j + 1]);
        }
        assert(s.drop_first()[k - 1] == s[k]);
        lemma_find_first_at(s.drop_first(), sep, k - 1);
    }
}

/// Absence of `sep` determines `find_first`.
pub proof fn lemma_find_first_none(s: Seq<u8>, sep: u8)
    requires
        forall|j: int| 0 <= j < s.len() ==> s[j] != sep,
    ensures
        find_first(s, sep) == -1,
    decreases s.len(),
{
    if s.len() > 0 {
        assert forall|j: int| 0 <= j < s.len() - 1 implies s.drop_first()[j] != sep by {
            assert(s.drop_first()[j] == s[j + 1]);
        }
        lemma_find_first_none(s.drop_first(), sep);
    }
}

/// The segments of `s` between occurrences of `sep`.  Splitting the empty
/// sequence gives one empty segment, and a trailing separator yields a
/// trailing empty segment, as for ordinary textual line splitting.
pub open spec fn split_bytes(s: Seq<u8>, sep: u8) -> Seq<Seq<u8>>
    decreases s.len(),
{
    let k = find_first(s, sep);
    if 0 <= k < s.len() {
        seq![s.take(k)] + split_bytes(s.skip(k + 1), sep)
    } else {
        seq![s]
    }
}

/// Finds the first occurrence of one byte.
pub fn find_byte(s: &[u8], sep: u8) -> (r: Option<usize>)
    ensures
        match r {
            Some(k) => find_first(s@, sep) == k as int,
            None => find_first(s@, sep) == -1,
        },
{
    let n: usize = s.len();
    let mut i: usize = 0;
    while i < n
        invariant
            n == s@.len(),
            i <= n,
            forall|j: int| 0 <= j < i ==> s@[j] != sep,
        decreases n - i,
    {
        if s[i] == sep {
            proof {
                lemma_find_first_at(s@, sep, i as int);
            }
            return Some(i);
        }
        i += 1;
    }
    proof {
        lemma_find_first_none(s@, sep);
    }
    None
}

/// Splits a byte slice on a separator byte, as `split_bytes` describes.
pub fn split_bytes_exec(s: &[u8], sep: u8) -> (r: Vec<Vec<u8>>)
    ensures
        r@.map_values(|seg: Vec<u8>| seg@) == split_bytes(s@, sep),
{
    let n: usize = s.len();
    let mut r: Vec<Vec<u8>> = Vec::new();
    let mut seg_start: usize = 0;
    let mut i: usize = 0;
    proof {
        assert(s@.skip(0) =~= s@);
        assert(r@.map_values(|seg: Vec<u8>| seg@) + split_bytes(s@, sep) =~= split_bytes(s@, sep));
    }
    while i < n
        invariant
            n == s@.len(),
            seg_start <= i <= n,
            forall|j: int| seg_start <= j < i ==> s@[j] != sep,
            split_bytes(s@, sep) == r@.map_values(|seg: Vec<u8>| seg@) + split_bytes(
                s@.skip(seg_start as int),
                sep,
            ),
        decreases n - i,
    {
        if s[i] == sep {
            let ghost done: Seq<Seq<u8>> = r@.map_values(|seg: Vec<u8>| seg@);
            let seg: Vec<u8> = slice_to_vec(slice_subrange(s, seg_start, i));
            r.push(seg);
            proof {
                let t = s@.skip(seg_start as int);
                assert forall|j: int| 0 <= j < i - seg_start implies t[j] != sep by {
                    assert(t[j] == s@[seg_start + j]);
                }
                assert(t[i - seg_start] == s@[i as int]);
                lemma_find_first_at(t, sep, i - seg_start);
                assert(t.take(i - seg_start) =~= s@.subrange(seg_start as int, i as int));
                assert(t.skip(i - seg_start + 1) =~= s@.skip(i + 1));
                assert(split_bytes(t, sep) == seq![seg@] + split_bytes(s@.skip(i + 1), sep));
                assert(r@.map_values(|sg: Vec<u8>| sg@) =~= done.push(seg@));
                assert(done.push(seg@) + split_bytes(s@.skip(i + 1), sep) =~= done + (seq![seg@]
                    + split_bytes(s@.skip(i + 1), sep)));
            }
            seg_start = i + 1;
        }
        i += 1;
    }
    let ghost done: Seq<Seq<u8>> = r@.map_values(|seg: Vec<u8>| seg@);
    let seg: Vec<u8> = slice_to_vec(slice_subrange(s, seg_start, n));
    r.push(seg);
    proof {
        let t = s@.skip(seg_start as int);
        assert forall|j: int| 0 <= j < t.len() implies t[j] != sep by {
            assert(t[j] == s@[seg_start + j]);
        }
        lemma_find_first_none(t, sep);
        assert(split_bytes(t, sep) == seq![t]);
        assert(seg@ =~= t);
        assert(r@.map_values(|sg: Vec<u8>| sg@) =~= done.push(seg@));
        assert(done.push(seg@) =~= done + seq![t]);
    }
    r
}

/// One decimal digit in ASCII.
pub open spec fn is_digit_byte(b: u8) -> bool {
    48 <= b <= 57
}

/// A nonempty run of ASCII digits.
pub open spec fn all_digits(s: Seq<u8>) -> bool {
    s.len() >= 1 && forall|i: int| 0 <= i < s.len() ==> is_digit_byte(#[trigger] s[i])
}

/// The weight grammar the codec accepts: an optional minus sign, then digits,
/// then optionally one dot followed by digits.  Every such string is a
/// well-formed decimal rendering of the engine's numeric score.
pub open spec fn is_weight_bytes(s: Seq<u8>) -> bool {
    let t = if s.len() >= 1 && s[0] == 45 {
        s.drop_first()
    } else {
        s
    };
    let k = find_first(t, 46);
    if k < 0 {
        all_digits(t)
    } else {
        all_digits(t.take(k)) && all_digits(t.skip(k + 1))
    }
}

/// Checks that a byte run is all digits.
fn digits_exec(s: &[u8]) -> (r: bool)
    ensures
        r == all_digits(s@),
{
    let n: usize = s.len();
    if n == 0 {
        return false;
    }
    let mut i: usize = 0;
    while i < n
        invariant
            n == s@.len(),
            i <= n,
            forall|j: int| 0 <= j < i ==> is_digit_byte(#[trigger] s@[j]),
        decreases n - i,
    {
        if s[i] < 48 || s[i] > 57 {
            return false;
        }
        i += 1;
    }
    true
}

/// Checks a weight field against the weight grammar.
pub fn check_weight(s: &[u8]) -> (r: bool)
    ensures
        r == is_weight_bytes(s@),
{
    let start: usize = if s.len() > 0 && s[0] == 45 {
        1
    } else {
        0
    };
    let t: &[u8] = slice_subrange(s, start, s.len());
    proof {
        if s@.len() >= 1 && s@[0] == 45 {
            assert(t@ =~= s@.drop_first());
        } else {
            assert(t@ =~= s@);
        }
    }
    match find_byte(t, 46) {
        None => digits_exec(t),
        Some(k) => {
            proof {
                lemma_find_first_props(t@, 46);
            }
            let a: bool = digits_exec(slice_subrange(t, 0, k));
            let b: bool = digits_exec(slice_subrange(t, k + 1, t.len()));
            proof {
                assert(t@.subrange(0, k as int) =~= t@.take(k as int));
                assert(t@.subrange(k + 1, t@.len() as int) =~= t@.skip(k + 1));
            }
            a && b
        },
    }
}

/// One suggestion record parsed from a response line: the echoed input word,
/// the candidate, and the weight in its textual decimal form.  The weight is
/// kept as text so that the caller decides its numeric type; the codec has
/// checked its decimal shape.
pub struct SuggestionRecord {
    pub word: String,
    pub value: String,
    pub weight: String,
}

impl SuggestionRecord {
    /// The record as a triple of character sequences.
    pub open spec fn model(self) -> (Seq<char>, Seq<char>, Seq<char>) {
        (self.word@, self.value@, self.weight@)
    }
}

/// The tab-separated fields of one line.
pub open spec fn line_fields(l: Seq<u8>) -> Seq<Seq<u8>> {
    split_bytes(l, TAB)
}

/// A well-formed record line: exactly three fields, each valid UTF-8, the
/// third of weight shape.
pub open spec fn line_ok(l: Seq<u8>) -> bool {
    let f = line_fields(l);
    &&& f.len() == 3
    &&& valid_utf8(f[0])
    &&& valid_utf8(f[1])
    &&& valid_utf8(f[2])
    &&& is_weight_bytes(f[2])
}

/// The record a well-formed line denotes.
pub open spec fn line_record(l: Seq<u8>) -> (Seq<char>, Seq<char>, Seq<char>) {
    let f = line_fields(l);
    (decode_utf8(f[0]), decode_utf8(f[1]), decode_utf8(f[2]))
}

/// Relies on `alloc::string::String::from_utf8`: it succeeds exactly on
/// valid UTF-8 input and returns the string those bytes encode.
#[verifier::external_body]
pub(crate) fn utf8_string(b: &[u8]) -> (r: Option<String>)
    ensures
        r is Some <==> valid_utf8(b@),
        r matches Some(s) ==> s@ == decode_utf8(b@),
{
    match String::from_utf8(b.to_vec()) {
        Ok(s) => Some(s),
        Err(_) => None,
    }
}

/// Parses one line into a record; a malformed line gives `None`.
pub fn parse_line(l: &[u8]) -> (r: Option<SuggestionRecord>)
    ensures
        r is Some <==> line_ok(l@),
        r matches Some(rec) ==> rec.model() == line_record(l@),
{
    let fields: Vec<Vec<u8>> = split_bytes_exec(l, TAB);
    proof {
        assert(fields@.map_values(|seg: Vec<u8>| seg@).len() == fields@.len());
    }
    if fields.len() != 3 {
        return None;
    }
    proof {
        assert(fields@[0]@ == line_fields(l@)[0]);
        assert(fields@[1]@ == line_fields(l@)[1]);
        assert(fields@[2]@ == line_fields(l@)[2]);
    }
    if !check_weight(fields[2].as_slice()) {
        return None;
    }
    let w0: Option<String> = utf8_string(fields[0].as_slice());
    let w1: Option<String> = utf8_string(fields[1].as_slice());
    let w2: Option<String> = utf8_string(fields[2].as_slice());
    match (w0, w1, w2) {
        (Some(word), Some(value), Some(weight)) => Some(SuggestionRecord { word, value, weight }),
        _ => None,
    }
}

/// The records of a block: split into lines, keep each well-formed line's
/// record, skip the rest.
pub open spec fn records_of_lines(lines: Seq<Seq<u8>>) -> Seq<(Seq<char>, Seq<char>, Seq<char>)>
    decreases lines.len(),
{
    if lines.len() == 0 {
        Seq::empty()
    } else {
        records_of_lines(lines.drop_last()) + if line_ok(lines.last()) {
            seq![line_record(lines.last())]
        } else {
            Seq::empty()
        }
    }
}

/// The records of a whole response block.
pub open spec fn block_records(block: Seq<u8>) -> Seq<(Seq<char>, Seq<char>, Seq<char>)> {
    records_of_lines(split_bytes(block, NL))
}

/// Parses a word-oriented response block: every well-formed record, in
/// order, with malformed lines skipped and never fatal.
pub fn parse_block(block: &[u8]) -> (r: Vec<SuggestionRecord>)
    ensures
        r@.map_values(|x: SuggestionRecord| x.model()) == block_records(block@),
{
    let lines: Vec<Vec<u8>> = split_bytes_exec(block, NL);
    let ghost ls: Seq<Seq<u8>> = split_bytes(block@, NL);
    let n: usize = lines.len();
    let mut r: Vec<SuggestionRecord> = Vec::new();
    let mut i: usize = 0;
    proof {
        assert(ls.take(0) =~= Seq::<Seq<u8>>::empty());
        assert(r@.map_values(|x: SuggestionRecord| x.model()) =~= records_of_lines(ls.take(0)));
    }
    while i < n
        invariant
            n == lines@.len(),
            i <= n,
            lines@.map_values(|seg: Vec<u8>| seg@) == ls,
            ls == split_bytes(block@, NL),
            r@.map_values(|x: SuggestionRecord| x.model()) == records_of_lines(ls.take(i as int)),
        decreases n - i,
    {
        let ghost done: Seq<(Seq<char>, Seq<char>, Seq<char>)> = r@.map_values(
            |x: SuggestionRecord| x.model(),
        );
        proof {
            assert(lines@[i as int]@ == ls[i as int]);
        }
        match parse_line(lines[i].as_slice()) {
            Some(rec) => {
                let ghost m = rec.model();
                r.push(rec);
                proof {
                    assert(r@.map_values(|x: SuggestionRecord| x.model()) =~= done.push(m));
                }
            },
            None => {},
        }
        proof {
            assert(ls.take(i + 1).drop_last() =~= ls.take(i as int));
            assert(ls.take(i + 1).last() == ls[i as int]);
            if line_ok(ls[i as int]) {
                assert(records_of_lines(ls.take(i + 1)) =~= records_of_lines(ls.take(i as int))
                    + seq![line_record(ls[i as int])]);
                assert(done.push(line_record(ls[i as int])) =~= done + seq![
                    line_record(ls[i as int]),
                ]);
            } else {
                assert(records_of_lines(ls.take(i + 1)) =~= records_of_lines(ls.take(i as int)));
            }
        }
        i += 1;
    }
    proof {
        assert(ls.take(n as int) =~= ls);
    }
    r
}

/// The terminator occurs in `buf` at position `i`.
pub open spec fn term_at(buf: Seq<u8>, term: Seq<u8>, i: int) -> bool {
    0 <= i && i + term.len() <= buf.len() && buf.subrange(i, i + term.len()) == term
}

/// Scans a read buffer for the first occurrence of the response terminator.
/// `Some(i)` marks the first position where the terminator starts; `None`
/// means the response is still incomplete and more bytes must be read.
pub fn find_terminator(buf: &[u8], term: &[u8]) -> (r: Option<usize>)
    requires
        term@.len() >= 1,
    ensures
        match r {
            Some(i) => term_at(buf@, term@, i as int) && forall|j: int|
                0 <= j < i ==> !term_at(buf@, term@, j),
            None => forall|j: int| !term_at(buf@, term@, j),
        },
{
    let nb: usize = buf.len();
    let nt: usize = term.len();
    if nt > nb {
        return None;
    }
    let last: usize = nb - nt;
    let mut i: usize = 0;
    while i <= last
        invariant
            nb == buf@.len(),
            nt == term@.len(),
            1 <= nt <= nb,
            last == nb - nt,
            i <= last + 1,
            forall|j: int| 0 <= j < i ==> !term_at(buf@, term@, j),
        decreases last + 1 - i,
    {
        let mut k: usize = 0;
        let mut matched: bool = true;
        while k < nt
            invariant
                nb == buf@.len(),
                nt == term@.len(),
                i + nt <= nb,
                k <= nt,
                matched ==> forall|d: int| 0 <= d < k ==> buf@[i + d] == term@[d],
                !matched ==> exists|d: int| 0 <= d < nt && buf@[i + d] != term@[d],
            decreases nt - k,
        {
            if buf[i + k] != term[k] {
                matched = false;
                k = nt;
            } else {
                k += 1;
            }
        }
        if matched {
            proof {
                assert(buf@.subrange(i as int, i + nt) =~= term@);
            }
            return Some(i);
        }
        proof {
            assert(!term_at(buf@, term@, i as int)) by {
                if term_at(buf@, term@, i as int) {
                    let d = choose|d: int| 0 <= d < nt && buf@[i + d] != term@[d];
                    assert(buf@.subrange(i as int, i + nt)[d] == buf@[i + d]);
                }
            }
        }
        i += 1;
    }
    None
}

/// Frames one request payload as a single line: the payload must itself be
/// free of the line terminator, and one terminator byte is appended.  Serves
/// the word-oriented engines (one word per line) and the whole-text engines
/// (the full text as one line) alike.
pub fn frame_request(payload: &str) -> (r: Option<Vec<u8>>)
    ensures
        r is Some <==> find_first(payload.spec_bytes(), NL) == -1,
        r matches Some(v) ==> v@ == payload.spec_bytes() + seq![NL],
{
    let b: &[u8] = payload.as_bytes();
    match find_byte(b, NL) {
        Some(_) => None,
        None => {
            let mut v: Vec<u8> = slice_to_vec(b);
            v.push(NL);
            proof {
                assert(v@ =~= payload.spec_bytes() + seq![NL]);
            }
            Some(v)
        },
    }
}

} // verus!
