//! Text handling: what the standard library's string functions that this
//! crate uses return, and a few verified helpers over them.

use vstd::prelude::*;
use vstd::utf8::{decode_utf8, encode_scalar, encode_utf8, valid_utf8};

verus! {

/// The characters that `char::is_whitespace` accepts: those with the Unicode
/// property White_Space.
pub open spec fn is_unicode_whitespace(c: char) -> bool {
    let u = c as u32;
    ||| 0x09 <= u <= 0x0D
    ||| u == 0x20
    ||| u == 0x85
    ||| u == 0xA0
    ||| u == 0x1680
    ||| 0x2000 <= u <= 0x200A
    ||| u == 0x2028
    ||| u == 0x2029
    ||| u == 0x202F
    ||| u == 0x205F
    ||| u == 0x3000
}

/// `s` without its trailing whitespace.
pub open spec fn trim_end_chars(s: Seq<char>) -> Seq<char>
    decreases s.len(),
{
    if s.len() > 0 && is_unicode_whitespace(s.last()) {
        trim_end_chars(s.drop_last())
    } else {
        s
    }
}

/// `s` without its leading whitespace.
pub open spec fn trim_start_chars(s: Seq<char>) -> Seq<char>
    decreases s.len(),
{
    if s.len() > 0 && is_unicode_whitespace(s[0]) {
        trim_start_chars(s.drop_first())
    } else {
        s
    }
}

/// `s` without its leading and trailing whitespace.
pub open spec fn trim_chars(s: Seq<char>) -> Seq<char> {
    trim_end_chars(trim_start_chars(s))
}

/// `s` without the copies of `c` at its end.
pub open spec fn trim_end_char(s: Seq<char>, c: char) -> Seq<char>
    decreases s.len(),
{
    if s.len() > 0 && s.last() == c {
        trim_end_char(s.drop_last(), c)
    } else {
        s
    }
}

/// `str::trim` removes leading and trailing whitespace, as `char::is_whitespace` defines it.
pub assume_specification<'a>[ str::trim ](s: &'a str) -> (r: &'a str)
    ensures
        r@ == trim_chars(s@),
;

/// `str::trim_end` removes trailing whitespace, as `char::is_whitespace` defines it.
pub assume_specification<'a>[ str::trim_end ](s: &'a str) -> (r: &'a str)
    ensures
        r@ == trim_end_chars(s@),
;

/// Calls `str::trim_end_matches` with the NUL character as pattern; the
/// contract claims that it removes every trailing `'\0'` and nothing else.
#[verifier::external_body]
pub fn trim_trailing_nul(s: &str) -> (r: &str)
    ensures
        r@ == trim_end_char(s@, '\0'),
{
    s.trim_end_matches('\0')
}

/// Calls `std::str::from_utf8`; the contract claims that it succeeds exactly
/// on valid UTF-8 and then holds the characters that the bytes encode.
#[verifier::external_body]
pub fn utf8_str(bytes: &[u8]) -> (r: Option<&str>)
    ensures
        r is Some <==> valid_utf8(bytes@),
        r matches Some(s) ==> s@ == decode_utf8(bytes@),
{
    match std::str::from_utf8(bytes) {
        Ok(s) => Some(s),
        Err(_) => None,
    }
}

/// What `String::from_utf8_lossy` makes of `bytes`: invalid sequences are
/// replaced by U+FFFD according to the standard library's rules.
pub uninterp spec fn lossy_utf8(bytes: Seq<u8>) -> Seq<char>;

/// Calls `String::from_utf8_lossy` and takes the result as an owned string.
/// The contract names its result, and claims what the documentation states:
/// valid UTF-8 is decoded unchanged.
#[verifier::external_body]
pub fn lossy_text(bytes: &[u8]) -> (r: String)
    ensures
        r@ == lossy_utf8(bytes@),
        valid_utf8(bytes@) ==> r@ == decode_utf8(bytes@),
{
    String::from_utf8_lossy(bytes).into_owned()
}

/// `String::push` appends one character.
pub assume_specification[ String::push ](s: &mut String, ch: char)
    ensures
        final(s)@ == old(s)@.push(ch),
;

/// `String::pop` removes and returns the last character, if there is one.
pub assume_specification[ String::pop ](s: &mut String) -> (r: Option<char>)
    ensures
        old(s)@.len() == 0 ==> r is None && final(s)@ == old(s)@,
        old(s)@.len() > 0 ==> r == Some(old(s)@.last()) && final(s)@ == old(s)@.drop_last(),
;

/// Whether two strings hold the same characters.
pub fn same_text(a: &str, b: &str) -> (r: bool)
    ensures
        r == (a@ == b@),
{
    let x = a.as_bytes();
    let y = b.as_bytes();
    proof {
        vstd::utf8::encode_utf8_decode_utf8(a@);
        vstd::utf8::encode_utf8_decode_utf8(b@);
    }
    if x.len() != y.len() {
        return false;
    }
    let mut i: usize = 0;
    while i < x.len()
        invariant
            x@ == encode_utf8(a@),
            y@ == encode_utf8(b@),
            x@.len() == y@.len(),
            i <= x@.len(),
            forall|j: int| 0 <= j < i ==> x@[j] == y@[j],
        decreases x@.len() - i,
    {
        if x[i] != y[i] {
            return false;
        }
        i = i + 1;
    }
    proof {
        assert(x@ =~= y@);
    }
    true
}

/// Whether `s` begins with two dashes, as a long option does.
pub open spec fn is_long_option(s: Seq<char>) -> bool {
    s.len() >= 2 && s[0] == '-' && s[1] == '-'
}

/// Whether `s` begins with `--`.
pub fn starts_with_two_dashes(s: &str) -> (r: bool)
    ensures
        r == is_long_option(s@),
{
    s.unicode_len() >= 2 && s.get_char(0) == '-' && s.get_char(1) == '-'
}

/// The UTF-8 of text with one more character is the UTF-8 of the text followed
/// by that character's encoding.
pub proof fn lemma_utf8_push(s: Seq<char>, c: char)
    ensures
        encode_utf8(s.push(c)) == encode_utf8(s) + encode_scalar(c as u32),
    decreases s.len(),
{
    if s.len() == 0 {
        assert(s.push(c).drop_first() =~= Seq::<char>::empty());
        assert(encode_utf8(Seq::<char>::empty()) =~= Seq::<u8>::empty());
        assert(encode_utf8(s.push(c)) =~= encode_utf8(s) + encode_scalar(c as u32));
    } else {
        lemma_utf8_push(s.drop_first(), c);
        assert(s.push(c).drop_first() =~= s.drop_first().push(c));
        assert(encode_utf8(s.push(c)) =~= encode_utf8(s) + encode_scalar(c as u32));
    }
}

/// The UTF-8 of joined text is the UTF-8 of the parts, joined.
pub proof fn lemma_utf8_concat(a: Seq<char>, b: Seq<char>)
    ensures
        encode_utf8(a + b) == encode_utf8(a) + encode_utf8(b),
    decreases a.len(),
{
    if a.len() == 0 {
        assert(a + b =~= b);
        assert(encode_utf8(a) =~= Seq::<u8>::empty());
        assert(encode_utf8(a) + encode_utf8(b) =~= encode_utf8(b));
    } else {
        lemma_utf8_concat(a.drop_first(), b);
        assert((a + b).drop_first() =~= a.drop_first() + b);
        assert((a + b)[0] == a[0]);
        assert(encode_utf8(a + b) =~= encode_utf8(a) + encode_utf8(b));
    }
}

/// `k` NUL characters.
pub open spec fn nul_chars(k: nat) -> Seq<char> {
    Seq::new(k, |i: int| '\0')
}

/// `k` zero bytes.
pub open spec fn zero_bytes(k: nat) -> Seq<u8> {
    Seq::new(k, |i: int| 0u8)
}

/// NUL characters are encoded as zero bytes, one each.
pub proof fn lemma_nul_encoding(k: nat)
    ensures
        encode_utf8(nul_chars(k)) == zero_bytes(k),
    decreases k,
{
    if k > 0 {
        lemma_nul_encoding((k - 1) as nat);
        assert(nul_chars(k).drop_first() =~= nul_chars((k - 1) as nat));
        assert(('\0' as u32) == 0);
        assert((0u32 & 0x7F) as u8 == 0u8) by (bit_vector);
        assert(encode_scalar(nul_chars(k)[0] as u32) =~= seq![0u8]);
        assert(encode_utf8(nul_chars(k)) =~= zero_bytes(k));
    }
}

/// Removing trailing NULs from text followed by NULs gives the text back,
/// when the text does not itself end in a NUL.
pub proof fn lemma_trim_nuls(t: Seq<char>, k: nat)
    requires
        t.len() == 0 || t.last() != '\0',
    ensures
        trim_end_char(t + nul_chars(k), '\0') == t,
    decreases k,
{
    if k == 0 {
        assert(t + nul_chars(k) =~= t);
    } else {
        lemma_trim_nuls(t, (k - 1) as nat);
        assert((t + nul_chars(k)).drop_last() =~= t + nul_chars((k - 1) as nat));
    }
}

/// Text without trailing whitespace ends in no whitespace.
pub proof fn lemma_trim_end_ends_clean(s: Seq<char>)
    ensures
        trim_end_chars(s).len() == 0 || !is_unicode_whitespace(trim_end_chars(s).last()),
    decreases s.len(),
{
    if s.len() > 0 && is_unicode_whitespace(s.last()) {
        lemma_trim_end_ends_clean(s.drop_last());
    }
}

/// Removing trailing whitespace twice removes no more than once.
pub proof fn lemma_trim_end_idempotent(s: Seq<char>)
    ensures
        trim_end_chars(trim_end_chars(s)) == trim_end_chars(s),
{
    lemma_trim_end_ends_clean(s);
}

/// Text trimmed at both ends has no trailing whitespace left to remove.
pub proof fn lemma_trimmed_has_clean_end(s: Seq<char>)
    ensures
        trim_end_chars(trim_chars(s)) == trim_chars(s),
{
    lemma_trim_end_idempotent(trim_start_chars(s));
}

} // verus!
