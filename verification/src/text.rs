use vstd::prelude::*;

verus! {

/// The characters standing for a byte sequence that is plain ASCII.
pub open spec fn ascii_chars_of(bytes: Seq<u8>) -> Seq<char> {
    Seq::new(bytes.len(), |i: int| bytes[i] as char)
}

/// The bytes standing for a character sequence that is plain ASCII.
pub open spec fn ascii_bytes_of(chars: Seq<char>) -> Seq<u8> {
    Seq::new(chars.len(), |i: int| chars[i] as u8)
}

/// Every byte is below 128, so the sequence is valid ASCII.
pub open spec fn bytes_are_ascii(bytes: Seq<u8>) -> bool {
    forall|i: int| 0 <= i < bytes.len() ==> bytes[i] < 128
}

/// ASCII bytes and their characters are in one-to-one correspondence.
pub proof fn lemma_ascii_bytes_chars(bytes: Seq<u8>)
    requires
        bytes_are_ascii(bytes),
    ensures
        ascii_bytes_of(ascii_chars_of(bytes)) =~= bytes,
        vstd::utf8::is_ascii_chars(ascii_chars_of(bytes)),
{
    assert forall|i: int| 0 <= i < bytes.len() implies {
        &&& (bytes[i] as char) as u8 == bytes[i]
        &&& (ascii_chars_of(bytes)[i] as u32) < 0x80
    } by {
        let b = bytes[i];
        assert((b as char) as u32 == b as u32);
        assert((b as char) as u8 == b);
    }
}

/// ASCII characters survive the trip through their bytes.
pub proof fn lemma_ascii_chars_bytes(chars: Seq<char>)
    requires
        vstd::utf8::is_ascii_chars(chars),
    ensures
        ascii_chars_of(ascii_bytes_of(chars)) =~= chars,
        bytes_are_ascii(ascii_bytes_of(chars)),
{
    assert forall|i: int| 0 <= i < chars.len() implies {
        &&& (chars[i] as u8) as char == chars[i]
        &&& ascii_bytes_of(chars)[i] < 128
    } by {
        let c = chars[i];
        assert((c as u32) < 0x80);
        assert(c as u8 == c as u32 as u8);
        vstd::utf8::char_u32_cast(c, c as u32);
        assert((c as u8) as u32 == c as u32);
        assert((c as u8) as char == (c as u32) as char);
    }
}

/// Character-wise string equality.
pub fn str_eq(a: &str, b: &str) -> (r: bool)
    ensures
        r == (a@ == b@),
{
    let alen = a.unicode_len();
    let blen = b.unicode_len();
    if alen != blen {
        return false;
    }
    let mut i: usize = 0;
    while i < alen
        invariant
            i <= alen,
            alen == a@.len(),
            alen == b@.len(),
            forall|j: int| 0 <= j < i ==> a@[j] == b@[j],
        decreases alen - i,
    {
        if a.get_char(i) != b.get_char(i) {
            return false;
        }
        i = i + 1;
    }
    proof {
        assert(a@ =~= b@);
    }
    true
}

/// Turns ASCII bytes into the string of the same characters.
///
/// Relies on std's `String::from_utf8`: on bytes that are all below 128 it
/// succeeds and yields exactly one character per byte, with equal codes.
#[verifier::external_body]
pub(crate) fn string_from_ascii(bytes: &Vec<u8>) -> (r: String)
    requires
        bytes_are_ascii(bytes@),
    ensures
        r@ == ascii_chars_of(bytes@),
{
    match String::from_utf8(bytes.clone()) {
        Ok(s) => s,
        Err(_) => String::new(),
    }
}

/// Turns journal bytes back into text.
///
/// Relies on std's `String::from_utf8`: it accepts exactly the valid UTF-8
/// byte strings and decodes them to their characters.
#[verifier::external_body]
pub(crate) fn string_from_utf8(bytes: &Vec<u8>) -> (r: Option<String>)
    ensures
        (r is Some) <==> vstd::utf8::valid_utf8(bytes@),
        r matches Some(s) ==> s@ == vstd::utf8::decode_utf8(bytes@),
{
    String::from_utf8(bytes.clone()).ok()
}

/// The decimal digit bytes of `n`, most significant first.
pub open spec fn spec_dec_digits(n: nat) -> Seq<u8>
    decreases n,
{
    if n < 10 {
        seq![(48 + n) as u8]
    } else {
        spec_dec_digits(n / 10) + seq![(48 + n % 10) as u8]
    }
}

/// The decimal digit characters of `n`, most significant first.
pub open spec fn spec_dec_chars(n: nat) -> Seq<char> {
    ascii_chars_of(spec_dec_digits(n))
}

/// The decimal rendering of a signed value, with a leading minus sign when
/// it is negative.
pub open spec fn spec_int_chars(n: int) -> Seq<char> {
    if n < 0 {
        seq!['-'] + spec_dec_chars((-n) as nat)
    } else {
        spec_dec_chars(n as nat)
    }
}

/// Every decimal digit byte lies between `'0'` and `'9'`.
pub proof fn lemma_dec_digits_ascii(n: nat)
    ensures
        forall|i: int|
            0 <= i < spec_dec_digits(n).len() ==> 48 <= #[trigger] spec_dec_digits(n)[i] <= 57,
    decreases n,
{
    if n >= 10 {
        lemma_dec_digits_ascii(n / 10);
        let s = spec_dec_digits(n);
        let p = spec_dec_digits(n / 10);
        assert(s == p + seq![(48 + n % 10) as u8]);
        assert forall|i: int| 0 <= i < s.len() implies 48 <= #[trigger] s[i] <= 57 by {
            if i < p.len() {
                assert(s[i] == p[i]);
            } else {
                assert(s[i] == (48 + n % 10) as u8);
            }
        }
    } else {
        assert(spec_dec_digits(n) == seq![(48 + n) as u8]);
    }
}

/// Appends the decimal digits of `n` to `out`.
pub fn push_dec_digits(n: u64, out: &mut Vec<u8>)
    ensures
        final(out)@ == old(out)@ + spec_dec_digits(n as nat),
    decreases n,
{
    if n >= 10 {
        push_dec_digits(n / 10, out);
    }
    out.push(48 + (n % 10) as u8);
}

/// Renders `n` in decimal.
pub fn u64_to_string(n: u64) -> (r: String)
    ensures
        r@ == spec_dec_chars(n as nat),
{
    let mut digits: Vec<u8> = Vec::new();
    push_dec_digits(n, &mut digits);
    proof {
        lemma_dec_digits_ascii(n as nat);
    }
    string_from_ascii(&digits)
}

/// Renders `n` in decimal, with a minus sign when negative.
pub fn i64_to_string(n: i64) -> (r: String)
    ensures
        r@ == spec_int_chars(n as int),
{
    if n >= 0 {
        u64_to_string(n as u64)
    } else {
        let magnitude: u64 = (-(n as i128)) as u64;
        let digits = u64_to_string(magnitude);
        let mut out = String::new();
        out.append("-");
        out.append(digits.as_str());
        proof {
            reveal_strlit("-");
            assert(out@ =~= spec_int_chars(n as int));
        }
        out
    }
}

} // verus!
