//! The decisions of the fuzzing harness around each run of the calculator.
use vstd::prelude::*;

use vstd::utf8::valid_utf8;

verus! {

/// `bytes` with every NUL byte removed.
pub open spec fn without_nul(bytes: Seq<u8>) -> Seq<u8> {
    bytes.filter(|b: u8| b != 0)
}

/// The text that the harness hands to the calculator and the oracle for
/// `bytes`: the bytes without NUL, when that leaves a non-empty valid UTF-8
/// string; `None` when the run is skipped.
pub open spec fn accepted_text(bytes: Seq<u8>) -> Option<Seq<u8>> {
    let text = without_nul(bytes);
    if text.len() > 0 && valid_utf8(text) {
        Some(text)
    } else {
        None
    }
}

/// Calls `std::str::from_utf8` of std, which per its documentation returns
/// an error exactly when the bytes are not valid UTF-8.
#[verifier::external_body]
fn is_valid_utf8(bytes: &[u8]) -> (r: bool)
    ensures
        r == valid_utf8(bytes@),
{
    std::str::from_utf8(bytes).is_ok()
}

/// The input without its NUL bytes, order kept.
pub fn strip_nul_bytes(bytes: &[u8]) -> (r: Vec<u8>)
    ensures
        r@ == without_nul(bytes@),
{
    let mut out: Vec<u8> = Vec::new();
    let mut i: usize = 0;
    while i < bytes.len()
        invariant
            i <= bytes@.len(),
            out@ == without_nul(bytes@.subrange(0, i as int)),
        decreases bytes@.len() - i,
    {
        let b = bytes[i];
        if b != 0 {
            out.push(b);
        }
        proof {
            let prefix = bytes@.subrange(0, i + 1);
            assert(prefix.drop_last() =~= bytes@.subrange(0, i as int));
            assert(prefix.last() == b);
            reveal_with_fuel(Seq::filter, 1);
        }
        i = i + 1;
    }
    assert(bytes@.subrange(0, bytes@.len() as int) =~= bytes@);
    out
}

/// The text of one run: `None` when nothing is left of the input once its
/// NUL bytes are removed, or when what is left is not valid UTF-8.
pub fn harness_text(bytes: &[u8]) -> (r: Option<Vec<u8>>)
    ensures
        match r {
            Some(text) => accepted_text(bytes@) == Some(text@),
            None => accepted_text(bytes@) is None,
        },
{
    if bytes.len() == 0 {
        proof {
            assert(bytes@.subrange(0, 0) =~= bytes@);
            reveal_with_fuel(Seq::filter, 1);
        }
        return None;
    }
    let filtered = strip_nul_bytes(bytes);
    if filtered.len() == 0 {
        return None;
    }
    if !is_valid_utf8(filtered.as_slice()) {
        return None;
    }
    Some(filtered)
}

/// The report written for a disagreement starts with the input and goes on
/// with the results after this separator: a newline, then `[tc-calc]: `.
/// `marker_at(s, i)` holds when the separator starts at byte `i` of `s`.
pub open spec fn marker_at(s: Seq<u8>, i: int) -> bool {
    &&& 0 <= i
    &&& i + 12 <= s.len()
    &&& s[i] == 10
    &&& s[i + 1] == 91
    &&& s[i + 2] == 116
    &&& s[i + 3] == 99
    &&& s[i + 4] == 45
    &&& s[i + 5] == 99
    &&& s[i + 6] == 97
    &&& s[i + 7] == 108
    &&& s[i + 8] == 99
    &&& s[i + 9] == 93
    &&& s[i + 10] == 58
    &&& s[i + 11] == 32
}

/// Whether the separator starts at byte `i` of `s`.
fn marker_at_exec(s: &[u8], i: usize) -> (r: bool)
    requires
        i + 12 <= s@.len(),
    ensures
        r == marker_at(s@, i as int),
{
    s[i] == 10 && s[i + 1] == 91 && s[i + 2] == 116 && s[i + 3] == 99 && s[i + 4] == 45 && s[i
        + 5] == 99 && s[i + 6] == 97 && s[i + 7] == 108 && s[i + 8] == 99 && s[i + 9] == 93 && s[i
        + 10] == 58 && s[i + 11] == 32
}

/// The length of the input recorded in a report: the position of the last
/// separator (the results that follow it never hold one, the input may);
/// `None` when the bytes hold no separator, so are no report.
pub fn recorded_input_len(report: &[u8]) -> (r: Option<usize>)
    ensures
        match r {
            Some(n) => marker_at(report@, n as int) && forall|j: int|
                n < j ==> !#[trigger] marker_at(report@, j),
            None => forall|j: int| !#[trigger] marker_at(report@, j),
        },
{
    let len = report.len();
    if len < 12 {
        return None;
    }
    let mut i: usize = len - 12 + 1;
    while i > 0
        invariant
            len == report@.len(),
            len >= 12,
            i <= len - 12 + 1,
            forall|j: int| i <= j ==> !#[trigger] marker_at(report@, j),
        decreases i,
    {
        i = i - 1;
        if marker_at_exec(report, i) {
            return Some(i);
        }
    }
    None
}

/// Whether the report of a disagreement on an input of `input_len` bytes is
/// written where a report may already stand, whose recorded input has
/// `recorded_len` bytes: always when there is none, and otherwise only when
/// the new input is smaller.
pub fn should_write_diff(input_len: usize, recorded_len: Option<usize>) -> (r: bool)
    ensures
        r == match recorded_len {
            Some(n) => input_len < n,
            None => true,
        },
{
    match recorded_len {
        Some(n) => input_len < n,
        None => true,
    }
}

} // verus!
