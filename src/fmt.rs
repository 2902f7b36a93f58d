//! Caret notation, which shows a control character as `^` and a printable character
//! (`NUL` as `^@`, `ESC` as `^[`).
use vstd::prelude::*;
use vstd::string::StrSliceExecFns;

verus! {

/// The characters of the general category Cc (control codes).
pub open spec fn is_control(c: char) -> bool {
    (c as u32) <= 0x1f || (0x7f <= (c as u32) && (c as u32) <= 0x9f)
}

/// The caret form of a control character: the character whose code differs in bit 6.
pub open spec fn caret_partner(c: char) -> char {
    (((c as u32) ^ 0x40) as u8) as char
}

/// `s` in caret notation.
pub open spec fn caret_of(s: Seq<char>) -> Seq<char>
    decreases s.len(),
{
    if s.len() == 0 {
        Seq::empty()
    } else if is_control(s.last()) {
        caret_of(s.drop_last()) + seq!['^', caret_partner(s.last())]
    } else {
        caret_of(s.drop_last()).push(s.last())
    }
}

/// Relies on String::push: appends one character.
#[verifier::external_body]
fn push_char(s: &mut String, c: char)
    ensures
        final(s)@ == old(s)@.push(c),
{
    s.push(c)
}

/// Writes `input` in caret notation: each control character `c` becomes `^`
/// followed by the character whose code is `c`'s with bit 6 flipped.
pub fn caret_notation(input: &str) -> (r: String)
    ensures
        r@ == caret_of(input@),
{
    let n = input.unicode_len();
    let mut out = String::new();
    let mut i: usize = 0;
    while i < n
        invariant
            n == input@.len(),
            i <= n,
            out@ == caret_of(input@.subrange(0, i as int)),
        decreases n - i,
    {
        let c = input.get_char(i);
        let ghost prefix = input@.subrange(0, i + 1);
        assert(prefix.drop_last() =~= input@.subrange(0, i as int));
        let code = c as u32;
        if code <= 0x1f || (0x7f <= code && code <= 0x9f) {
            push_char(&mut out, '^');
            let partner = ((code ^ 0x40) as u8) as char;
            push_char(&mut out, partner);
            assert(out@ =~= caret_of(prefix));
        } else {
            push_char(&mut out, c);
        }
        i = i + 1;
    }
    assert(input@.subrange(0, n as int) =~= input@);
    out
}

} // verus!
