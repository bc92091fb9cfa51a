//! Fixed-length text regions: UTF-8, padded at the end with NUL bytes.

use vstd::prelude::*;
use vstd::string::StringSliceAdditionalSpecFns;
use vstd::utf8::*;

verus! {

/// The length of `s` without its trailing NUL bytes.
pub open spec fn trimmed_len(s: Seq<u8>) -> nat
    decreases s.len(),
{
    if s.len() > 0 && s.last() == 0 {
        trimmed_len(s.drop_last())
    } else {
        s.len()
    }
}

/// `s` without its trailing NUL bytes.
pub open spec fn trim_nul(s: Seq<u8>) -> Seq<u8> {
    s.take(trimmed_len(s) as int)
}

/// The text that a region holds: its characters up to the NUL padding, or
/// nothing where the region is not valid UTF-8.
pub open spec fn text_of(region: Seq<u8>) -> Option<Seq<char>> {
    if valid_utf8(region) {
        Some(decode_utf8(trim_nul(region)))
    } else {
        None
    }
}

/// The view of an optional string.
pub open spec fn text_view(text: Option<String>) -> Option<Seq<char>> {
    match text {
        Some(t) => Some(t@),
        None => None,
    }
}

/// Trimming never lengthens, and where it shortens, the first byte that it
/// drops is NUL.
pub proof fn lemma_trimmed_len(s: Seq<u8>)
    ensures
        trimmed_len(s) <= s.len(),
        trimmed_len(s) < s.len() ==> s[trimmed_len(s) as int] == 0,
    decreases s.len(),
{
    if s.len() > 0 && s.last() == 0 {
        lemma_trimmed_len(s.drop_last());
    }
}

/// `n` NUL bytes.
pub open spec fn nul_padding(n: nat) -> Seq<u8> {
    Seq::new(n, |i: int| 0u8)
}

/// NUL bytes are well-formed UTF-8.
pub proof fn lemma_padding_is_valid(n: nat)
    ensures
        valid_utf8(nul_padding(n)),
    decreases n,
{
    if n > 0 {
        lemma_padding_is_valid((n - 1) as nat);
        assert(pop_first_scalar(nul_padding(n)) =~= nul_padding((n - 1) as nat));
    }
}

/// Padding adds nothing to the trimmed length of text that does not itself
/// end in NUL.
pub proof fn lemma_padding_trimmed_len(content: Seq<u8>, n: nat)
    requires
        content.len() > 0 ==> content.last() != 0,
    ensures
        trimmed_len(content + nul_padding(n)) == content.len(),
    decreases n,
{
    let padded = content + nul_padding(n);
    if n == 0 {
    } else {
        lemma_padding_trimmed_len(content, (n - 1) as nat);
        assert(padded.drop_last() =~= content + nul_padding((n - 1) as nat));
    }
}

/// Text that does not itself end in NUL comes back exactly, however many
/// NUL bytes pad it to the length of its region.
pub proof fn law_padding_is_trimmed(content: Seq<u8>, n: nat)
    requires
        valid_utf8(content),
        content.len() > 0 ==> content.last() != 0,
    ensures
        trim_nul(content + nul_padding(n)) == content,
        text_of(content + nul_padding(n)) == Some(decode_utf8(content)),
{
    lemma_padding_trimmed_len(content, n);
    lemma_padding_is_valid(n);
    valid_utf8_concat(content, nul_padding(n));
}

/// `std::str::from_utf8`: the bytes as a string slice exactly when they are
/// well-formed UTF-8; the slice then consists of those same bytes.
#[verifier::external_body]
fn utf8_str(bytes: &[u8]) -> (text: Option<&str>)
    ensures
        text is Some <==> valid_utf8(bytes@),
        text is Some ==> text->0.spec_bytes() == bytes@,
{
    match std::str::from_utf8(bytes) {
        Ok(text) => Some(text),
        Err(_) => None,
    }
}

/// The number of bytes of `region` that precede its NUL padding.
fn content_len(region: &[u8]) -> (end: usize)
    ensures
        end == trimmed_len(region@),
{
    let mut end: usize = region.len();
    assert(region@.take(end as int) =~= region@);
    while end > 0 && region[end - 1] == 0
        invariant
            end <= region.len(),
            trimmed_len(region@) == trimmed_len(region@.take(end as int)),
        decreases end,
    {
        assert(region@.take(end as int).drop_last() =~= region@.take(end - 1));
        end = end - 1;
    }
    end
}

/// Decodes a text region.
pub fn decode_text(region: &[u8]) -> (text: Option<String>)
    ensures
        text_view(text) == text_of(region@),
{
    match utf8_str(region) {
        None => None,
        Some(whole) => {
            let end: usize = content_len(region);
            proof {
                lemma_trimmed_len(region@);
                if end < region.len() {
                    is_char_boundary_iff_not_is_continuation_byte(region@, end as int);
                } else {
                    is_char_boundary_start_end_of_seq(region@);
                }
            }
            let (content, _) = whole.split_at(end);
            proof {
                encode_utf8_decode_utf8(content@);
            }
            Some(content.to_owned())
        },
    }
}

} // verus!
