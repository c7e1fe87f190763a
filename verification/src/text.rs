use vstd::prelude::*;
use vstd::string::StringSliceAdditionalSpecFns;
use vstd::string::StringExecFns;
use vstd::utf8::{decode_utf8, encode_utf8, encode_utf8_decode_utf8};

verus! {

/// Two texts are equal exactly when their UTF-8 encodings are.
pub proof fn lemma_encoding_injective(a: Seq<char>, b: Seq<char>)
    ensures
        (encode_utf8(a) == encode_utf8(b)) <==> (a == b),
{
    encode_utf8_decode_utf8(a);
    encode_utf8_decode_utf8(b);
}

/// Whether two byte strings are equal.
pub fn bytes_eq(a: &[u8], b: &[u8]) -> (eq: bool)
    ensures
        eq <==> a@ == b@,
{
    if a.len() != b.len() {
        return false;
    }
    let mut i: usize = 0;
    while i < a.len()
        invariant
            a@.len() == b@.len(),
            i <= a@.len(),
            a@.subrange(0, i as int) == b@.subrange(0, i as int),
        decreases a@.len() - i,
    {
        if a[i] != b[i] {
            assert(a@[i as int] != b@[i as int]);
            return false;
        }
        assert(a@.subrange(0, i + 1) =~= a@.subrange(0, i as int).push(a@[i as int]));
        assert(b@.subrange(0, i + 1) =~= b@.subrange(0, i as int).push(b@[i as int]));
        i = i + 1;
    }
    assert(a@ =~= a@.subrange(0, a@.len() as int));
    assert(b@ =~= b@.subrange(0, b@.len() as int));
    true
}

/// Whether two texts are equal.
pub fn str_eq(a: &str, b: &str) -> (eq: bool)
    ensures
        eq <==> a@ == b@,
{
    let eq = bytes_eq(a.as_bytes(), b.as_bytes());
    proof {
        lemma_encoding_injective(a@, b@);
    }
    eq
}

} // verus!

verus! {

/// What `<str as Debug>::fmt` writes for `text`: the text in double quotes,
/// with the characters that need it escaped.
pub uninterp spec fn str_debug(text: Seq<char>) -> Seq<char>;

/// Formats `text` with `<str as Debug>::fmt`.  The contract says that the
/// outcome is the one `str_debug` names for the text; which escapes are
/// written is not stated.
#[verifier::external_body]
pub(crate) fn debug_text(text: &str) -> (quoted: String)
    ensures
        quoted@ == str_debug(text@),
{
    format!("{:?}", text)
}

/// The decimal digit for `d`, for `d` from 0 to 9.
pub open spec fn digit_char(d: int) -> char {
    if d == 0 {
        '0'
    } else if d == 1 {
        '1'
    } else if d == 2 {
        '2'
    } else if d == 3 {
        '3'
    } else if d == 4 {
        '4'
    } else if d == 5 {
        '5'
    } else if d == 6 {
        '6'
    } else if d == 7 {
        '7'
    } else if d == 8 {
        '8'
    } else {
        '9'
    }
}

/// Ten to the power `w`.
pub open spec fn pow10(w: nat) -> nat
    decreases w,
{
    if w == 0 {
        1
    } else {
        10 * pow10((w - 1) as nat)
    }
}

/// The last `width` decimal digits of `n`, with leading zeros.
pub open spec fn padded_digits(n: nat, width: nat) -> Seq<char>
    decreases width,
{
    if width == 0 {
        Seq::empty()
    } else {
        padded_digits(n / 10, (width - 1) as nat).push(digit_char((n % 10) as int))
    }
}

/// `n` written in decimal, without leading zeros.
pub open spec fn decimal(n: nat) -> Seq<char>
    decreases n,
{
    if n < 10 {
        seq![digit_char(n as int)]
    } else {
        decimal(n / 10).push(digit_char((n % 10) as int))
    }
}

/// `i` written in decimal, with a minus sign when it is negative.
pub open spec fn signed_decimal(i: int) -> Seq<char> {
    if i < 0 {
        seq!['-'] + decimal((-i) as nat)
    } else {
        decimal(i as nat)
    }
}

/// `width` digits are `width` ASCII digits.
pub proof fn lemma_padded_digits_shape(n: nat, width: nat)
    ensures
        padded_digits(n, width).len() == width,
        forall|i: int|
            0 <= i < width ==> '0' <= #[trigger] padded_digits(n, width)[i] && padded_digits(
                n,
                width,
            )[i] <= '9',
    decreases width,
{
    if width > 0 {
        lemma_padded_digits_shape(n / 10, (width - 1) as nat);
        let p = padded_digits(n / 10, (width - 1) as nat);
        assert forall|i: int| 0 <= i < width implies '0' <= #[trigger] padded_digits(n, width)[i]
            && padded_digits(n, width)[i] <= '9' by {
            if i < width - 1 {
                assert(padded_digits(n, width)[i] == p[i]);
            }
        }
    }
}

/// Numbers below `10^width` have different `width`-digit forms.
pub proof fn lemma_padded_digits_injective(a: nat, b: nat, width: nat)
    requires
        a < pow10(width),
        b < pow10(width),
        padded_digits(a, width) == padded_digits(b, width),
    ensures
        a == b,
    decreases width,
{
    if width > 0 {
        let w1 = (width - 1) as nat;
        let pa = padded_digits(a / 10, w1);
        let pb = padded_digits(b / 10, w1);
        assert(padded_digits(a, width) == pa.push(digit_char((a % 10) as int)));
        assert(padded_digits(b, width) == pb.push(digit_char((b % 10) as int)));
        assert(pa.push(digit_char((a % 10) as int)).last() == digit_char((a % 10) as int));
        assert(pb.push(digit_char((b % 10) as int)).last() == digit_char((b % 10) as int));
        assert(digit_char((a % 10) as int) == digit_char((b % 10) as int));
        assert(a % 10 == b % 10);
        assert(pa.push(digit_char((a % 10) as int)).drop_last() =~= pa);
        assert(pb.push(digit_char((b % 10) as int)).drop_last() =~= pb);
        assert(pa == pb);
        assert(a / 10 < pow10(w1));
        assert(b / 10 < pow10(w1));
        lemma_padded_digits_injective(a / 10, b / 10, w1);
    }
}

/// The digit for `d` as text.
fn digit_text(d: u64) -> (text: &'static str)
    requires
        d < 10,
    ensures
        text@ == seq![digit_char(d as int)],
{
    proof {
        reveal_strlit("0");
        reveal_strlit("1");
        reveal_strlit("2");
        reveal_strlit("3");
        reveal_strlit("4");
        reveal_strlit("5");
        reveal_strlit("6");
        reveal_strlit("7");
        reveal_strlit("8");
        reveal_strlit("9");
    }
    let text = if d == 0 {
        "0"
    } else if d == 1 {
        "1"
    } else if d == 2 {
        "2"
    } else if d == 3 {
        "3"
    } else if d == 4 {
        "4"
    } else if d == 5 {
        "5"
    } else if d == 6 {
        "6"
    } else if d == 7 {
        "7"
    } else if d == 8 {
        "8"
    } else {
        "9"
    };
    assert(text@ =~= seq![digit_char(d as int)]);
    text
}

/// The last `width` decimal digits of `n`, with leading zeros.
pub fn padded_text(n: u64, width: usize) -> (text: String)
    ensures
        text@ == padded_digits(n as nat, width as nat),
    decreases width,
{
    if width == 0 {
        String::new()
    } else {
        let mut text = padded_text(n / 10, width - 1);
        text.append(digit_text(n % 10));
        text
    }
}

/// `n` written in decimal.
pub fn decimal_text(n: u64) -> (text: String)
    ensures
        text@ == decimal(n as nat),
    decreases n,
{
    if n < 10 {
        String::from_str(digit_text(n))
    } else {
        let mut text = decimal_text(n / 10);
        text.append(digit_text(n % 10));
        text
    }
}

/// `i` written in decimal, with a minus sign when it is negative.
pub fn signed_decimal_text(i: i64) -> (text: String)
    ensures
        text@ == signed_decimal(i as int),
{
    if i < 0 {
        let magnitude: u64 = ((-(i + 1)) as u64) + 1;
        let digits = decimal_text(magnitude);
        let mut text = String::from_str("-");
        text.append(digits.as_str());
        proof {
            reveal_strlit("-");
            assert(text@ =~= seq!['-'] + decimal((-i) as nat));
        }
        text
    } else {
        decimal_text(i as u64)
    }
}

} // verus!
