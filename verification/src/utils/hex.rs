use vstd::prelude::*;
use vstd::string::is_ascii_spec_bytes;
use crate::error::CoreError;

verus! {

/// The lowercase hexadecimal digit for a number below sixteen.
pub open spec fn spec_hex_digit(n: u8) -> char {
    if n < 10 {
        (0x30 + n) as char
    } else {
        (0x57 + n) as char
    }
}

/// The number that a hexadecimal digit of either case stands for.
pub open spec fn spec_hex_value(c: char) -> Option<u8> {
    if '0' <= c <= '9' {
        Some((c as u8 - 0x30) as u8)
    } else if 'a' <= c <= 'f' {
        Some((c as u8 - 0x57) as u8)
    } else if 'A' <= c <= 'F' {
        Some((c as u8 - 0x37) as u8)
    } else {
        None
    }
}

/// Bytes as lowercase hexadecimal text: two digits for every byte, the
/// high half first.
pub open spec fn spec_encode_hex(bytes: Seq<u8>) -> Seq<char>
    decreases bytes.len(),
{
    if bytes.len() == 0 {
        Seq::<char>::empty()
    } else {
        seq![spec_hex_digit(bytes.first() / 16), spec_hex_digit(bytes.first() % 16)]
            + spec_encode_hex(bytes.drop_first())
    }
}

/// The bytes that hexadecimal text stands for: the text has an even number
/// of characters, all of them hexadecimal digits of either case.
pub open spec fn spec_decode_hex(text: Seq<char>) -> Option<Seq<u8>>
    decreases text.len(),
{
    if text.len() == 0 {
        Some(Seq::<u8>::empty())
    } else if text.len() == 1 {
        None
    } else {
        match (spec_hex_value(text[0]), spec_hex_value(text[1]), spec_decode_hex(text.skip(2))) {
            (Some(hi), Some(lo), Some(rest)) => Some(seq![(hi * 16 + lo) as u8] + rest),
            _ => None,
        }
    }
}

/// `Some` of the bytes `front` followed by what `back` holds, where it
/// holds something.
pub open spec fn spec_prepend_bytes(front: Seq<u8>, back: Option<Seq<u8>>) -> Option<Seq<u8>> {
    match back {
        None => None,
        Some(rest) => Some(front + rest),
    }
}

/// Every digit stands for the number that it was made from.
pub proof fn lemma_hex_digit_value(n: u8)
    requires
        n < 16,
    ensures
        spec_hex_value(spec_hex_digit(n)) == Some(n),
{
}

/// Hexadecimal text has two characters for every byte.
pub proof fn lemma_encode_hex_len(bytes: Seq<u8>)
    ensures
        spec_encode_hex(bytes).len() == 2 * bytes.len(),
    decreases bytes.len(),
{
    if bytes.len() > 0 {
        lemma_encode_hex_len(bytes.drop_first());
    }
}

/// Encoding one more byte appends its two digits.
pub proof fn lemma_encode_hex_push(bytes: Seq<u8>, byte: u8)
    ensures
        spec_encode_hex(bytes.push(byte)) == spec_encode_hex(bytes) + seq![
            spec_hex_digit(byte / 16),
            spec_hex_digit(byte % 16),
        ],
    decreases bytes.len(),
{
    let digits = seq![spec_hex_digit(byte / 16), spec_hex_digit(byte % 16)];
    if bytes.len() == 0 {
        let one = bytes.push(byte);
        assert(one.first() == byte);
        assert(one.drop_first() =~= Seq::<u8>::empty());
        assert(spec_encode_hex(one.drop_first()) =~= Seq::<char>::empty());
        assert(spec_encode_hex(one) =~= digits);
        assert(spec_encode_hex(bytes) + digits =~= digits);
    } else {
        assert(bytes.push(byte).drop_first() =~= bytes.drop_first().push(byte));
        assert(bytes.push(byte).first() == bytes.first());
        lemma_encode_hex_push(bytes.drop_first(), byte);
        assert(spec_encode_hex(bytes.push(byte)) =~= spec_encode_hex(bytes) + digits);
    }
}

/// Decoding inverts encoding: the hexadecimal text of any bytes stands for
/// those bytes.
pub proof fn lemma_decode_encode_hex(bytes: Seq<u8>)
    ensures
        spec_decode_hex(spec_encode_hex(bytes)) == Some(bytes),
    decreases bytes.len(),
{
    if bytes.len() > 0 {
        let first = bytes.first();
        let rest = bytes.drop_first();
        let text = spec_encode_hex(bytes);
        lemma_decode_encode_hex(rest);
        lemma_encode_hex_len(rest);
        lemma_hex_digit_value(first / 16);
        lemma_hex_digit_value(first % 16);
        assert(text[0] == spec_hex_digit(first / 16));
        assert(text[1] == spec_hex_digit(first % 16));
        assert(text.skip(2) =~= spec_encode_hex(rest));
        assert(((first / 16) * 16 + first % 16) as u8 == first);
        assert(seq![first] + rest =~= bytes);
    }
}

/// Text that stands for bytes has two characters for every byte, all of
/// them in ASCII.
pub proof fn lemma_decode_hex_shape(text: Seq<char>)
    requires
        spec_decode_hex(text) is Some,
    ensures
        text.len() == 2 * spec_decode_hex(text)->Some_0.len(),
        forall|i: int| 0 <= i < text.len() ==> spec_hex_value(#[trigger] text[i]) is Some,
    decreases text.len(),
{
    if text.len() > 0 {
        lemma_decode_hex_shape(text.skip(2));
        assert forall|i: int| 0 <= i < text.len() implies spec_hex_value(
            #[trigger] text[i],
        ) is Some by {
            if i >= 2 {
                assert(text[i] == text.skip(2)[i - 2]);
            }
        }
    }
}

/// `String::push`: the text with `c` after it.
#[verifier::external_body]
fn push_char(text: &mut String, c: char)
    ensures
        final(text)@ == old(text)@.push(c),
{
    text.push(c)
}

/// The lowercase hexadecimal digit for a number below sixteen.
fn hex_digit(n: u8) -> (c: char)
    requires
        n < 16,
    ensures
        c == spec_hex_digit(n),
{
    if n < 10 {
        (0x30 + n) as char
    } else {
        (0x57 + n) as char
    }
}

/// The number that the ASCII character `b` stands for as a hexadecimal
/// digit of either case.
fn hex_value(b: u8) -> (out: Option<u8>)
    ensures
        out == spec_hex_value(b as char),
{
    if 0x30 <= b && b <= 0x39 {
        Some(b - 0x30)
    } else if 0x61 <= b && b <= 0x66 {
        Some(b - 0x57)
    } else if 0x41 <= b && b <= 0x46 {
        Some(b - 0x37)
    } else {
        None
    }
}

/// The bytes of `data` as lowercase hexadecimal text, two digits a byte.
pub fn encode_hex(data: &[u8]) -> (text: String)
    ensures
        text@ == spec_encode_hex(data@),
        text@.len() == 2 * data@.len(),
{
    let mut text = String::new();
    let mut i: usize = 0;
    assert(data@.take(0) =~= Seq::<u8>::empty());
    while i < data.len()
        invariant
            i <= data@.len(),
            text@ == spec_encode_hex(data@.take(i as int)),
        decreases data@.len() - i,
    {
        let byte = data[i];
        proof {
            lemma_encode_hex_push(data@.take(i as int), byte);
            assert(data@.take(i + 1) =~= data@.take(i as int).push(byte));
        }
        push_char(&mut text, hex_digit(byte / 16));
        push_char(&mut text, hex_digit(byte % 16));
        i = i + 1;
        assert(text@ =~= spec_encode_hex(data@.take(i as int)));
    }
    proof {
        assert(data@.take(i as int) =~= data@);
        lemma_encode_hex_len(data@);
    }
    text
}

/// The bytes that the hexadecimal text `data` stands for. The text must
/// have an even number of characters, each a hexadecimal digit of either
/// case; any other text is refused.
pub fn decode_hex(data: &str) -> (out: Result<Vec<u8>, CoreError>)
    ensures
        out matches Ok(bytes) ==> spec_decode_hex(data@) == Some(bytes@),
        out matches Err(e) ==> spec_decode_hex(data@) is None && e == CoreError::DecodeBase16,
{
    if !data.is_ascii() {
        proof {
            if spec_decode_hex(data@) is Some {
                lemma_decode_hex_shape(data@);
                assert forall|i: int| 0 <= i < data@.len() implies '\0' <= #[trigger] data@[i]
                    <= '\u{7f}' by {
                    assert(spec_hex_value(data@[i]) is Some);
                }
            }
        }
        return Err(CoreError::DecodeBase16);
    }
    let text = data.as_bytes();
    proof {
        is_ascii_spec_bytes(data);
    }
    let n = text.len();
    let mut bytes: Vec<u8> = Vec::new();
    let mut i: usize = 0;
    assert(data@.skip(0) =~= data@);
    proof {
        let all = spec_decode_hex(data@);
        if all is Some {
            assert(bytes@ + all->Some_0 =~= all->Some_0);
        }
    }
    while i < n
        invariant
            i <= n,
            n == data@.len(),
            n == text@.len(),
            forall|k: int| 0 <= k < n ==> text@[k] == (#[trigger] data@[k]) as u8,
            forall|k: int| 0 <= k < n ==> '\0' <= #[trigger] data@[k] <= '\u{7f}',
            spec_decode_hex(data@) == spec_prepend_bytes(
                bytes@,
                spec_decode_hex(data@.skip(i as int)),
            ),
        decreases n - i,
    {
        let ghost rest = data@.skip(i as int);
        if n - i < 2 {
            return Err(CoreError::DecodeBase16);
        }
        assert(rest[0] == data@[i as int]);
        assert(rest[1] == data@[i + 1]);
        assert(text@[i as int] as char == data@[i as int]);
        assert(text@[i + 1] as char == data@[i + 1]);
        let hi = match hex_value(text[i]) {
            Some(hi) => hi,
            None => { return Err(CoreError::DecodeBase16); },
        };
        let lo = match hex_value(text[i + 1]) {
            Some(lo) => lo,
            None => { return Err(CoreError::DecodeBase16); },
        };
        let ghost before = bytes@;
        bytes.push(hi * 16 + lo);
        i = i + 2;
        proof {
            assert(rest.skip(2) =~= data@.skip(i as int));
            let tail = spec_decode_hex(data@.skip(i as int));
            if tail is Some {
                assert(before + (seq![(hi * 16 + lo) as u8] + tail->Some_0) =~= bytes@
                    + tail->Some_0);
            }
        }
    }
    proof {
        assert(data@.skip(i as int) =~= Seq::<char>::empty());
        assert(bytes@ + Seq::<u8>::empty() =~= bytes@);
    }
    Ok(bytes)
}

} // verus!
