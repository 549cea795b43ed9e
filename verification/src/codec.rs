//! The frame codec: classifies a raw response buffer into a [`Frame`]
//! (error, comma-delimited or carriage-return-delimited) and serializes a
//! typed request into wire text with the terminator appended.
//!
//! Decoding is specified by the pure model [`decode_text`] over the decoded
//! characters; the executable [`decode`] is proved to implement it.

use vstd::prelude::*;
use vstd::string::StrSliceExecFns;
use vstd::string::StringExecFns;
use vstd::utf8::{decode_utf8, valid_utf8};

use crate::config::{ModeScope, ModuleScope};
use crate::error::Error;

verus! {

/// The two terminator characters that end every request and response.
pub open spec fn term_chars() -> Seq<char> {
    seq!['\r', '\n']
}

/// Whether `s` ends in the two-character terminator.
pub open spec fn is_terminated(s: Seq<char>) -> bool {
    s.len() >= 2 && s[s.len() - 2] == '\r' && s[s.len() - 1] == '\n'
}

/// `s` with its final two characters (the terminator) removed.
pub open spec fn strip_term(s: Seq<char>) -> Seq<char> {
    s.take(s.len() - 2)
}

/// Whether `s` begins with the literal prefix `Error`.
pub open spec fn starts_with_error(s: Seq<char>) -> bool {
    s.len() >= 5 && s[0] == 'E' && s[1] == 'r' && s[2] == 'r' && s[3] == 'o' && s[4] == 'r'
}

/// Whether the character `c` occurs anywhere in `s`.
pub open spec fn has_char(s: Seq<char>, c: char) -> bool {
    exists|i: int| 0 <= i < s.len() && s[i] == c
}

/// How many times the character `c` occurs in `s`.
pub open spec fn count_char(s: Seq<char>, c: char) -> nat
    decreases s.len(),
{
    if s.len() == 0 {
        0
    } else {
        count_char(s.drop_last(), c) + if s.last() == c {
            1nat
        } else {
            0nat
        }
    }
}

/// The position of the first occurrence of `d` in `s`, or `s.len()` if
/// there is none.
pub open spec fn first_index(s: Seq<char>, d: char) -> int
    decreases s.len(),
{
    if s.len() == 0 {
        0
    } else if s[0] == d {
        0
    } else {
        1 + first_index(s.skip(1), d)
    }
}

/// What `first_index` promises: it is in range, points at `d` if `d`
/// occurs at all, and nothing before it is `d`.
pub proof fn lemma_first_index(s: Seq<char>, d: char)
    ensures
        0 <= first_index(s, d) <= s.len(),
        first_index(s, d) < s.len() ==> s[first_index(s, d)] == d,
        forall|j: int| 0 <= j < first_index(s, d) ==> s[j] != d,
        (first_index(s, d) == s.len()) <==> !has_char(s, d),
    decreases s.len(),
{
    if s.len() == 0 {
    } else if s[0] == d {
    } else {
        lemma_first_index(s.skip(1), d);
        let i = first_index(s, d);
        assert(forall|j: int| 1 <= j < i ==> s[j] == s.skip(1)[j - 1]);
        if i == s.len() {
            assert forall|k: int| 0 <= k < s.len() implies s[k] != d by {
                if k >= 1 {
                    assert(s.skip(1)[k - 1] == s[k]);
                }
            }
        } else {
            assert(s.skip(1)[i - 1] == d);
        }
    }
}

/// `s` split on every occurrence of `d`: one piece more than there are
/// delimiters, with empty pieces kept.
pub open spec fn split_on(s: Seq<char>, d: char) -> Seq<Seq<char>>
    decreases s.len(),
{
    let i = first_index(s, d);
    if 0 <= i < s.len() {
        seq![s.take(i)] + split_on(s.skip(i + 1), d)
    } else {
        seq![s]
    }
}

/// The pieces of `vs` joined with the single character `d` between them.
pub open spec fn join_with(vs: Seq<Seq<char>>, d: char) -> Seq<char>
    decreases vs.len(),
{
    if vs.len() == 0 {
        Seq::empty()
    } else if vs.len() == 1 {
        vs[0]
    } else {
        vs[0] + seq![d] + join_with(vs.skip(1), d)
    }
}

/// The classification of one full response text, before any of it is
/// turned into owned values: not terminated at all, a device-reported
/// error, or a value list in one of the two delimiter encodings.
pub enum Decoded {
    /// The text does not end in the terminator.
    NotTerminated,
    /// The text begins with `Error`; the payload is the text with the
    /// terminator stripped.
    ErrorText(Seq<char>),
    /// A comma-delimited value list (no carriage return remains after the
    /// terminator is stripped).
    CommaValues(Seq<Seq<char>>),
    /// A carriage-return-delimited value list: the recognized device
    /// quirk, chosen whenever a carriage return remains after stripping.
    CrValues(Seq<Seq<char>>),
}

/// The decoding model: terminator check first, then the `Error` prefix
/// (which outranks all delimiter logic), then delimiter disambiguation on
/// the carriage returns that remain once the terminator is stripped.
pub open spec fn decode_text(s: Seq<char>) -> Decoded {
    if !is_terminated(s) {
        Decoded::NotTerminated
    } else {
        let body = strip_term(s);
        if starts_with_error(body) {
            Decoded::ErrorText(body)
        } else if has_char(body, '\r') {
            Decoded::CrValues(split_on(body, '\r'))
        } else {
            Decoded::CommaValues(split_on(body, ','))
        }
    }
}

/// A framed response received from the controller.
#[derive(Debug, Clone, PartialEq)]
pub enum Frame {
    /// A device-reported error: the response began with `Error`.
    Error(String),
    /// Carriage-return-delimited values (a device firmware quirk).
    CrDelimited(Vec<String>),
    /// Normal, comma-delimited values.
    CommaDelimited(Vec<String>),
}

/// A typed request ready for dispatch: its scope restrictions and the
/// serialized wire payload.
#[derive(Debug, Clone, PartialEq)]
pub struct Command {
    /// The bare command mnemonic, used in diagnostics.
    pub mnemonic: String,
    /// Modules this command may address.
    pub allowed_mod: ModuleScope,
    /// Operating modes this command is legal in.
    pub allowed_mode: ModeScope,
    /// The full wire payload, terminator included.
    pub payload: String,
}

impl Command {
    /// Builds a command from an already-formatted payload, appending the
    /// terminator. Argument values must not themselves contain the
    /// terminator or the frame delimiters; that is a documented caller
    /// contract, not enforced here.
    pub fn new(mnemonic: &str, allowed_mod: ModuleScope, allowed_mode: ModeScope, payload: &str) -> (r: Command)
        ensures
            r.payload@ == payload@ + term_chars(),
            r.mnemonic@ == mnemonic@,
            r.allowed_mod == allowed_mod,
            r.allowed_mode == allowed_mode,
    {
        let mut p = String::from_str(payload);
        p.append("\r\n");
        proof {
            reveal_strlit("\r\n");
            assert(p@ =~= payload@ + term_chars());
        }
        Command { mnemonic: String::from_str(mnemonic), allowed_mod, allowed_mode, payload: p }
    }
}

/// Relies on `std::str::from_utf8`: it succeeds exactly on valid UTF-8
/// input and yields its decoding, per vstd's model of UTF-8.
#[verifier::external_body]
fn utf8_to_string(buf: &[u8]) -> (r: Option<String>)
    ensures
        r is Some <==> valid_utf8(buf@),
        r matches Some(s) ==> s@ == decode_utf8(buf@),
{
    match std::str::from_utf8(buf) {
        Ok(s) => Some(s.to_string()),
        Err(_) => None,
    }
}

/// If nothing in `[0, k)` is `d`, and either `k` is the end or `t[k]` is
/// `d`, then `k` is the first occurrence.
proof fn lemma_first_index_at(t: Seq<char>, d: char, k: int)
    requires
        0 <= k <= t.len(),
        forall|j: int| 0 <= j < k ==> t[j] != d,
        k == t.len() || t[k] == d,
    ensures
        first_index(t, d) == k,
    decreases k,
{
    if t.len() == 0 {
    } else if k == 0 {
        if t[0] != d {
            // k == t.len() == 0 contradicts t.len() > 0, so t[0] == d here.
        }
    } else {
        assert(t[0] != d);
        assert(forall|j: int| 0 <= j < k - 1 ==> t.skip(1)[j] == t[j + 1]);
        lemma_first_index_at(t.skip(1), d, k - 1);
    }
}

/// Splits `s` on every occurrence of `d`, keeping empty pieces.
pub(crate) fn split_str(s: &str, d: char) -> (r: Vec<String>)
    ensures
        r.deep_view() == split_on(s@, d),
{
    let n = s.unicode_len();
    let mut parts: Vec<String> = Vec::new();
    let mut start: usize = 0;
    let mut i: usize = 0;
    proof {
        assert(s@.skip(0) =~= s@);
        assert(parts.deep_view() =~= Seq::<Seq<char>>::empty());
        assert(parts.deep_view() + split_on(s@, d) =~= split_on(s@, d));
    }
    while i < n
        invariant
            0 <= start <= i <= n,
            n == s@.len(),
            forall|j: int| start <= j < i ==> s@[j] != d,
            split_on(s@, d) == parts.deep_view() + split_on(s@.skip(start as int), d),
        decreases n - i,
    {
        if s.get_char(i) == d {
            let piece = s.substring_char(start, i);
            let ghost old_parts = parts.deep_view();
            parts.push(String::from_str(piece));
            proof {
                let tail = s@.skip(start as int);
                assert(forall|j: int| 0 <= j < i - start ==> tail[j] == s@[j + start]);
                lemma_first_index_at(tail, d, i - start);
                assert(tail.take(i - start) =~= s@.subrange(start as int, i as int));
                assert(tail.skip(i - start + 1) =~= s@.skip(i as int + 1));
                assert(split_on(tail, d) == seq![piece@] + split_on(s@.skip(i as int + 1), d));
                assert(parts.deep_view() =~= old_parts.push(piece@));
                assert(parts.deep_view() + split_on(s@.skip(i as int + 1), d) =~= old_parts
                    + split_on(tail, d));
            }
            start = i + 1;
        }
        i += 1;
    }
    let piece = s.substring_char(start, n);
    let ghost old_parts = parts.deep_view();
    parts.push(String::from_str(piece));
    proof {
        let tail = s@.skip(start as int);
        assert(forall|j: int| 0 <= j < n - start ==> tail[j] == s@[j + start]);
        lemma_first_index_at(tail, d, n - start);
        assert(tail =~= s@.subrange(start as int, n as int));
        assert(split_on(tail, d) == seq![piece@]);
        assert(parts.deep_view() =~= old_parts.push(piece@));
        assert(parts.deep_view() =~= old_parts + split_on(tail, d));
    }
    parts
}

/// Whether the frame `f` is exactly what the response bytes decode to:
/// the bytes are valid UTF-8, the text is terminated, and the frame
/// carries the classification's own payload, an error text verbatim or
/// the value list of either delimiter encoding.
pub open spec fn frame_decodes(bytes: Seq<u8>, f: Frame) -> bool {
    &&& valid_utf8(bytes)
    &&& match decode_text(decode_utf8(bytes)) {
        Decoded::NotTerminated => false,
        Decoded::ErrorText(b) => f matches Frame::Error(s) && s@ == b,
        Decoded::CommaValues(vs) => f matches Frame::CommaDelimited(v) && v.deep_view() == vs,
        Decoded::CrValues(vs) => f matches Frame::CrDelimited(v) && v.deep_view() == vs,
    }
}

/// Whether `e` is exactly the decoding failure the response bytes give:
/// not UTF-8, or valid text without the trailing terminator.
pub open spec fn decode_fails(bytes: Seq<u8>, e: Error) -> bool {
    if !valid_utf8(bytes) {
        e is Utf8
    } else {
        &&& decode_text(decode_utf8(bytes)) is NotTerminated
        &&& e matches Error::InvalidResponse(m) && m@ == "Terminator not found"@
    }
}

/// Whether `vs` is the value list the response bytes decode to, under
/// either delimiter encoding. Which encoding carried the list is
/// deliberately absent: both reconcile to one semantic outcome.
pub open spec fn values_decode(bytes: Seq<u8>, vs: Seq<Seq<char>>) -> bool {
    &&& valid_utf8(bytes)
    &&& match decode_text(decode_utf8(bytes)) {
        Decoded::CommaValues(x) => x == vs,
        Decoded::CrValues(x) => x == vs,
        _ => false,
    }
}

/// A frame that holds a value list decodes exactly when its list does.
pub proof fn lemma_frame_values_decode(bytes: Seq<u8>, f: Frame)
    requires
        frame_decodes(bytes, f),
    ensures
        f matches Frame::CommaDelimited(v) ==> values_decode(bytes, v.deep_view()),
        f matches Frame::CrDelimited(v) ==> values_decode(bytes, v.deep_view()),
{
}

/// Decodes one accumulated response buffer into a frame, per
/// [`decode_text`]: UTF-8 first, then the terminator, then the `Error`
/// prefix, then delimiter disambiguation. Pure: no I/O, no state.
/// Success and failure are exhaustive: the result is `Ok` exactly on
/// valid, terminated input.
pub fn decode(buf: &[u8]) -> (r: Result<Frame, Error>)
    ensures
        r matches Ok(f) ==> frame_decodes(buf@, f),
        r matches Err(e) ==> decode_fails(buf@, e),
{
    let text = match utf8_to_string(buf) {
        Some(t) => t,
        None => {
            return Err(Error::Utf8);
        },
    };
    let n = text.as_str().unicode_len();
    if n < 2 || text.as_str().get_char(n - 2) != '\r' || text.as_str().get_char(n - 1) != '\n' {
        return Err(Error::InvalidResponse(String::from_str("Terminator not found")));
    }
    let body = text.as_str().substring_char(0, n - 2);
    proof {
        assert(body@ =~= strip_term(text@));
    }
    let blen = n - 2;
    if blen >= 5 && body.get_char(0) == 'E' && body.get_char(1) == 'r' && body.get_char(2) == 'r'
        && body.get_char(3) == 'o' && body.get_char(4) == 'r' {
        return Ok(Frame::Error(String::from_str(body)));
    }
    let mut has_cr = false;
    let mut i: usize = 0;
    while i < blen
        invariant
            0 <= i <= blen,
            blen == body@.len(),
            has_cr == exists|j: int| 0 <= j < i && body@[j] == '\r',
        decreases blen - i,
    {
        if body.get_char(i) == '\r' {
            has_cr = true;
        }
        i += 1;
    }
    if has_cr {
        Ok(Frame::CrDelimited(split_str(body, '\r')))
    } else {
        Ok(Frame::CommaDelimited(split_str(body, ',')))
    }
}

/// Splitting always yields at least one piece.
pub proof fn lemma_split_on_nonempty(s: Seq<char>, d: char)
    ensures
        split_on(s, d).len() >= 1,
{
}

/// A character occurs in a concatenation exactly when it occurs in one of
/// the halves.
proof fn lemma_has_char_concat(a: Seq<char>, b: Seq<char>, c: char)
    ensures
        has_char(a + b, c) <==> has_char(a, c) || has_char(b, c),
{
    if has_char(a, c) {
        let i = choose|i: int| 0 <= i < a.len() && a[i] == c;
        assert((a + b)[i] == c);
    }
    if has_char(b, c) {
        let i = choose|i: int| 0 <= i < b.len() && b[i] == c;
        assert((a + b)[a.len() + i] == c);
    }
    if has_char(a + b, c) {
        let i = choose|i: int| 0 <= i < (a + b).len() && (a + b)[i] == c;
        if i < a.len() {
            assert(a[i] == c);
        } else {
            assert(b[i - a.len()] == c);
        }
    }
}

/// Joining pieces free of a character `c` with a different delimiter
/// leaves the result free of `c` as well.
proof fn lemma_join_no_char(vs: Seq<Seq<char>>, d: char, c: char)
    requires
        c != d,
        forall|k: int| 0 <= k < vs.len() ==> !has_char(#[trigger] vs[k], c),
    ensures
        !has_char(join_with(vs, d), c),
    decreases vs.len(),
{
    if vs.len() <= 1 {
    } else {
        assert(forall|k: int| 0 <= k < vs.skip(1).len() ==> vs.skip(1)[k] == vs[k + 1]);
        lemma_join_no_char(vs.skip(1), d, c);
        lemma_has_char_concat(vs[0] + seq![d], join_with(vs.skip(1), d), c);
        lemma_has_char_concat(vs[0], seq![d], c);
        assert(!has_char(seq![d], c));
    }
}

/// Splitting on `d` undoes joining with `d`, provided no piece holds the
/// delimiter itself.
pub proof fn lemma_split_join(vs: Seq<Seq<char>>, d: char)
    requires
        vs.len() >= 1,
        forall|k: int| 0 <= k < vs.len() ==> !has_char(#[trigger] vs[k], d),
    ensures
        split_on(join_with(vs, d), d) == vs,
    decreases vs.len(),
{
    let j = join_with(vs, d);
    if vs.len() == 1 {
        lemma_first_index(j, d);
        assert(split_on(j, d) =~= vs);
    } else {
        let rest = join_with(vs.skip(1), d);
        let k = vs[0].len() as int;
        assert(j == vs[0] + seq![d] + rest);
        assert(forall|i: int| 0 <= i < k ==> j[i] == vs[0][i]);
        assert(j[k] == d);
        lemma_first_index_at(j, d, k);
        assert(j.take(k) =~= vs[0]);
        assert(j.skip(k + 1) =~= rest);
        assert(forall|i: int| 0 <= i < vs.skip(1).len() ==> vs.skip(1)[i] == vs[i + 1]);
        lemma_split_join(vs.skip(1), d);
        assert(split_on(j, d) == seq![vs[0]] + vs.skip(1));
        assert(seq![vs[0]] + vs.skip(1) =~= vs);
    }
}

/// Round-trip framing: a list of comma- and carriage-return-free values,
/// wrapped as the device would echo them in a comma response, decodes
/// back to exactly those values. The one family of inputs left out is a
/// list whose joined text itself begins with `Error`: the error check
/// outranks delimiter logic and claims such a response.
pub proof fn lemma_round_trip_framing(vals: Seq<Seq<char>>)
    requires
        vals.len() >= 1,
        forall|k: int| 0 <= k < vals.len() ==> !has_char(#[trigger] vals[k], ','),
        forall|k: int| 0 <= k < vals.len() ==> !has_char(#[trigger] vals[k], '\r'),
        !starts_with_error(join_with(vals, ',')),
    ensures
        decode_text(join_with(vals, ',') + term_chars()) == Decoded::CommaValues(vals),
{
    let body = join_with(vals, ',');
    let text = body + term_chars();
    assert(text[text.len() - 2] == '\r');
    assert(text[text.len() - 1] == '\n');
    assert(strip_term(text) =~= body);
    lemma_join_no_char(vals, ',', '\r');
    lemma_split_join(vals, ',');
}

/// Counting distributes over concatenation.
proof fn lemma_count_char_concat(a: Seq<char>, b: Seq<char>, c: char)
    ensures
        count_char(a + b, c) == count_char(a, c) + count_char(b, c),
    decreases b.len(),
{
    if b.len() == 0 {
        assert(a + b =~= a);
    } else {
        assert((a + b).drop_last() =~= a + b.drop_last());
        lemma_count_char_concat(a, b.drop_last(), c);
    }
}

/// A character is absent exactly when its count is zero.
proof fn lemma_count_char_zero(s: Seq<char>, c: char)
    ensures
        (count_char(s, c) == 0) <==> !has_char(s, c),
    decreases s.len(),
{
    if s.len() == 0 {
    } else {
        lemma_count_char_zero(s.drop_last(), c);
        if s.last() == c {
            assert(s[s.len() - 1] == c);
        } else if has_char(s, c) {
            let i = choose|i: int| 0 <= i < s.len() && s[i] == c;
            assert(s.drop_last()[i] == c);
        }
    }
}

/// Ambiguous-delimiter disambiguation, counted over the full response
/// text: the terminator itself holds one carriage return, so two or more
/// in the whole text select the carriage-return-delimited reading, and
/// exactly one (the terminator's own) the comma-delimited reading.
pub proof fn lemma_delimiter_disambiguation(text: Seq<char>)
    requires
        is_terminated(text),
        !starts_with_error(strip_term(text)),
    ensures
        count_char(text, '\r') >= 2 ==> decode_text(text) == Decoded::CrValues(
            split_on(strip_term(text), '\r'),
        ),
        count_char(text, '\r') == 1 ==> decode_text(text) == Decoded::CommaValues(
            split_on(strip_term(text), ','),
        ),
{
    let body = strip_term(text);
    assert(text =~= body + term_chars());
    lemma_count_char_concat(body, term_chars(), '\r');
    let one = seq!['\r'];
    assert(one.drop_last() =~= Seq::<char>::empty());
    assert(count_char(Seq::<char>::empty(), '\r') == 0);
    assert(count_char(one, '\r') == 1);
    assert(term_chars().drop_last() =~= one);
    assert(count_char(term_chars(), '\r') == 1);
    lemma_count_char_zero(body, '\r');
}

/// Error precedence: a terminated response whose text begins with `Error`
/// decodes to an error frame carrying the terminator-stripped text,
/// regardless of embedded commas or carriage returns.
pub proof fn lemma_error_precedence(text: Seq<char>)
    requires
        is_terminated(text),
        starts_with_error(text),
    ensures
        decode_text(text) == Decoded::ErrorText(strip_term(text)),
{
    // The five prefix characters are none of them '\r', so the terminator
    // must lie wholly after them and the text is at least seven long.
    assert(text.len() >= 7) by {
        if text.len() == 5 {
            assert(text[3] == 'o' && text[3] == '\r');
        }
        if text.len() == 6 {
            assert(text[4] == 'r' && text[4] == '\r');
        }
    }
    assert(starts_with_error(strip_term(text)));
}

} // verus!
