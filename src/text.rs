use vstd::prelude::*;
use vstd::string::*;

verus! {

/// The character a single raw ASCII byte stands for.
pub open spec fn byte_char(b: u8) -> char {
    (b as u32) as char
}

/// Raw ASCII bytes read as text, one character per byte.
pub open spec fn ascii_text(bytes: Seq<u8>) -> Seq<char> {
    bytes.map_values(|b: u8| byte_char(b))
}

/// The decimal digit character for `d < 10`.
pub open spec fn digit_char(d: nat) -> char {
    byte_char((d + 48) as u8)
}

/// The decimal notation of `n`, most significant digit first.
pub open spec fn decimal(n: nat) -> Seq<char>
    decreases n,
{
    if n < 10 {
        seq![digit_char(n)]
    } else {
        decimal(n / 10).push(digit_char(n % 10))
    }
}

/// Relies on `String::push`: the character is appended at the end.
#[verifier::external_body]
pub(crate) fn push_char(s: &mut String, c: char)
    ensures
        final(s)@ == old(s)@.push(c),
{
    s.push(c)
}

/// Appends the decimal notation of `n`.
pub(crate) fn push_decimal(s: &mut String, n: u32)
    ensures
        final(s)@ == old(s)@ + decimal(n as nat),
    decreases n,
{
    if n >= 10 {
        push_decimal(s, n / 10);
    }
    let d: u8 = (n % 10) as u8;
    push_char(s, (d + 48) as char);
    assert(final(s)@ =~= old(s)@ + decimal(n as nat));
}

/// Appends the bytes `bytes[0..len]`, each read as one ASCII character.
pub(crate) fn push_ascii(s: &mut String, bytes: &Vec<u8>, len: usize)
    requires
        len <= bytes@.len(),
    ensures
        final(s)@ == old(s)@ + ascii_text(bytes@.subrange(0, len as int)),
{
    let mut i: usize = 0;
    while i < len
        invariant
            i <= len <= bytes@.len(),
            s@ == old(s)@ + ascii_text(bytes@.subrange(0, i as int)),
        decreases len - i,
    {
        push_char(s, bytes[i] as char);
        i = i + 1;
        assert(ascii_text(bytes@.subrange(0, i as int)) =~= ascii_text(
            bytes@.subrange(0, (i - 1) as int),
        ).push(byte_char(bytes@[i - 1])));
    }
}

} // verus!
