//! Combining the captured output streams of a finished child process and
//! defaulting its exit code.

use vstd::prelude::*;

verus! {

/// What lossy UTF-8 decoding returns for the given bytes: a function of
/// the bytes alone.
pub uninterp spec fn lossy_of(bytes: Seq<u8>) -> Seq<char>;

/// Relies on `String::from_utf8_lossy`: decodes UTF-8 leniently, replacing
/// invalid sequences instead of rejecting them; the result depends on the
/// bytes alone, and empty input decodes to the empty string.
#[verifier::external_body]
pub(crate) fn decode_lossy(bytes: &[u8]) -> (r: String)
    ensures
        r@ == lossy_of(bytes@),
        bytes@.len() == 0 ==> r@.len() == 0,
{
    String::from_utf8_lossy(bytes).into_owned()
}

/// The combined text of the two streams: when both are non-empty they are
/// joined by a single newline, otherwise the result is just the non-empty
/// one, with nothing inserted.
pub open spec fn spec_combined(out: Seq<char>, err: Seq<char>) -> Seq<char> {
    if out.len() == 0 {
        err
    } else if err.len() == 0 {
        out
    } else {
        out + seq!['\n'] + err
    }
}

/// Decode the captured standard output and standard error leniently and
/// combine them into one text blob.
pub fn combined_capture(stdout_bytes: &[u8], stderr_bytes: &[u8]) -> (r: String)
    ensures
        r@ == spec_combined(lossy_of(stdout_bytes@), lossy_of(stderr_bytes@)),
{
    let out = decode_lossy(stdout_bytes);
    let err = decode_lossy(stderr_bytes);
    if out.as_str().unicode_len() == 0 {
        err
    } else if err.as_str().unicode_len() == 0 {
        out
    } else {
        let mut r = out;
        r.append("\n");
        r.append(err.as_str());
        proof {
            reveal_strlit("\n");
            assert(r@ =~= spec_combined(lossy_of(stdout_bytes@), lossy_of(stderr_bytes@)));
        }
        r
    }
}

/// The exit code reported for a finished child: the code the OS gave, or
/// -1 when the child terminated abnormally and no numeric code is
/// available.
pub fn exit_code_of(code: Option<i32>) -> (r: i32)
    ensures
        code matches Some(c) ==> r == c,
        code is None ==> r == -1,
{
    match code {
        Some(c) => c,
        None => -1,
    }
}

} // verus!
