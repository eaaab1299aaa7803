//! Base64 in the standard alphabet with padding, as the `base64` crate's
//! `STANDARD` engine writes and reads it.
use vstd::prelude::*;

verus! {

/// The standard alphabet: the character for a six-bit value.  `A` to `Z`
/// stand for 0 to 25, `a` to `z` for 26 to 51, `0` to `9` for 52 to 61, `+`
/// for 62 and `/` for 63.
pub open spec fn symbol(v: int) -> char {
    if v < 26 {
        ('A' as u8 + v) as u8 as char
    } else if v < 52 {
        ('a' as u8 + (v - 26)) as u8 as char
    } else if v < 62 {
        ('0' as u8 + (v - 52)) as u8 as char
    } else if v == 62 {
        '+'
    } else {
        '/'
    }
}

/// The four characters for a group of one to three bytes.  Their bits are
/// written six at a time, most significant first; a group of fewer than three
/// bytes is filled up with zero bits to the next character, and with `=` to
/// four characters.
pub open spec fn group_text(group: Seq<u8>) -> Seq<char>
    recommends
        1 <= group.len() <= 3,
{
    let a = group[0] as int;
    if group.len() == 1 {
        seq![symbol(a / 4), symbol(a % 4 * 16), '=', '=']
    } else if group.len() == 2 {
        let b = group[1] as int;
        seq![symbol(a / 4), symbol(a % 4 * 16 + b / 16), symbol(b % 16 * 4), '=']
    } else {
        let b = group[1] as int;
        let c = group[2] as int;
        seq![
            symbol(a / 4),
            symbol(a % 4 * 16 + b / 16),
            symbol(b % 16 * 4 + c / 64),
            symbol(c % 64),
        ]
    }
}

/// The base64 text of `bytes`: the bytes are taken in groups of three, the
/// last group as many as are left, and each group gives four characters.
pub open spec fn base64_text(bytes: Seq<u8>) -> Seq<char>
    decreases bytes.len(),
{
    if bytes.len() == 0 {
        Seq::empty()
    } else if bytes.len() <= 3 {
        group_text(bytes)
    } else {
        group_text(bytes.take(3)) + base64_text(bytes.skip(3))
    }
}

/// `text` is the base64 text of some bytes.
pub open spec fn is_base64(text: Seq<char>) -> bool {
    exists|bytes: Seq<u8>| text == #[trigger] base64_text(bytes)
}

/// The bytes of which `text` is the base64 text, if there are any.  There
/// is at most one such sequence of bytes; see [`lemma_base64_injective`].
pub open spec fn base64_bytes(text: Seq<char>) -> Option<Seq<u8>> {
    if is_base64(text) {
        Some(choose|bytes: Seq<u8>| text == #[trigger] base64_text(bytes))
    } else {
        None
    }
}

/// The length of the base64 text of `n` bytes: four characters for every
/// three bytes, the last group padded.
pub open spec fn base64_len(n: nat) -> nat {
    4 * ((n + 2) / 3)
}

/// Whether the base64 text of `n` bytes has a length that fits `usize`.
pub open spec fn encodable(n: nat) -> bool {
    base64_len(n) <= usize::MAX
}

/// The base64 text of `n` bytes is `base64_len(n)` characters long.
pub proof fn lemma_base64_len(bytes: Seq<u8>)
    ensures
        base64_text(bytes).len() == base64_len(bytes.len()),
    decreases bytes.len(),
{
    if bytes.len() > 3 {
        lemma_base64_len(bytes.skip(3));
    }
}

/// The definition at work on the bytes of `f`, `fo`, `foo` and `foob`.
pub proof fn lemma_base64_examples()
    ensures
        base64_text(seq![]) == ""@,
        base64_text(seq![0x66]) == "Zg=="@,
        base64_text(seq![0x66, 0x6f]) == "Zm8="@,
        base64_text(seq![0x66, 0x6f, 0x6f]) == "Zm9v"@,
        base64_text(seq![0x66, 0x6f, 0x6f, 0x62]) == "Zm9vYg=="@,
{
    reveal_strlit("");
    reveal_strlit("Zg==");
    reveal_strlit("Zm8=");
    reveal_strlit("Zm9v");
    reveal_strlit("Zm9vYg==");
    let foob: Seq<u8> = seq![0x66, 0x6f, 0x6f, 0x62];
    assert(foob.take(3) =~= seq![0x66, 0x6f, 0x6f]);
    assert(foob.skip(3) =~= seq![0x62]);
    assert(base64_text(foob.skip(3)) == group_text(foob.skip(3)));
}

/// Different six-bit values have different characters, and none has `=`.
pub proof fn lemma_symbols_differ(v: int, w: int)
    requires
        0 <= v < 64,
        0 <= w < 64,
    ensures
        symbol(v) != '=',
        symbol(v) == symbol(w) ==> v == w,
{
}

/// Different groups have different characters: the padding tells how many
/// bytes a group has, and the symbols tell the bytes.
pub proof fn lemma_group_injective(g: Seq<u8>, h: Seq<u8>)
    requires
        1 <= g.len() <= 3,
        1 <= h.len() <= 3,
        group_text(g) == group_text(h),
    ensures
        g == h,
{
    let s = group_text(g);
    let t = group_text(h);
    let a = g[0] as int;
    let d = h[0] as int;
    assert(s[0] == t[0] && s[1] == t[1] && s[2] == t[2] && s[3] == t[3]);
    lemma_symbols_differ(a / 4, d / 4);
    // The third and fourth characters, where they are symbols.
    if g.len() >= 2 {
        lemma_symbols_differ((g[1] as int) % 16 * 4 + if g.len() == 3 {
            (g[2] as int) / 64
        } else {
            0
        }, 0);
    }
    if h.len() >= 2 {
        lemma_symbols_differ((h[1] as int) % 16 * 4 + if h.len() == 3 {
            (h[2] as int) / 64
        } else {
            0
        }, 0);
    }
    if g.len() == 3 {
        lemma_symbols_differ((g[2] as int) % 64, 0);
    }
    if h.len() == 3 {
        lemma_symbols_differ((h[2] as int) % 64, 0);
    }
    assert(g.len() == h.len());
    if g.len() == 1 {
        lemma_symbols_differ(a % 4 * 16, d % 4 * 16);
    } else {
        let b = g[1] as int;
        let e = h[1] as int;
        lemma_symbols_differ(a % 4 * 16 + b / 16, d % 4 * 16 + e / 16);
        if g.len() == 2 {
            lemma_symbols_differ(b % 16 * 4, e % 16 * 4);
        } else {
            let c = g[2] as int;
            let f = h[2] as int;
            lemma_symbols_differ(b % 16 * 4 + c / 64, e % 16 * 4 + f / 64);
            lemma_symbols_differ(c % 64, f % 64);
        }
    }
    assert(g =~= h);
}

/// Base64 loses nothing: different bytes have different texts.
pub proof fn lemma_base64_injective(x: Seq<u8>, y: Seq<u8>)
    requires
        base64_text(x) == base64_text(y),
    ensures
        x == y,
    decreases x.len(),
{
    lemma_base64_len(x);
    lemma_base64_len(y);
    if x.len() == 0 || y.len() == 0 {
        assert(x =~= y);
    } else {
        // The first four characters are those of the first group, the rest
        // is the text of the rest.
        let g = if x.len() <= 3 {
            x
        } else {
            x.take(3)
        };
        let h = if y.len() <= 3 {
            y
        } else {
            y.take(3)
        };
        assert(base64_text(x).take(4) =~= group_text(g));
        assert(base64_text(y).take(4) =~= group_text(h));
        lemma_group_injective(g, h);
        if x.len() > 3 {
            assert(base64_text(x).skip(4) =~= base64_text(x.skip(3)));
            assert(base64_text(y).skip(4) =~= base64_text(y.skip(3)));
            lemma_base64_injective(x.skip(3), y.skip(3));
            assert(x =~= x.take(3) + x.skip(3));
            assert(y =~= y.take(3) + y.skip(3));
        }
    }
}

/// Reading back what was written: the bytes of a base64 text are the bytes
/// it was made from.
pub proof fn lemma_base64_round_trip(bytes: Seq<u8>)
    ensures
        base64_bytes(base64_text(bytes)) == Some(bytes),
{
    let text = base64_text(bytes);
    let found = choose|b: Seq<u8>| text == #[trigger] base64_text(b);
    lemma_base64_injective(found, bytes);
}

/// `base64::DecodeError`, why the engine refused a text.  Opaque here.
#[verifier::external_type_specification]
#[verifier::external_body]
pub struct ExDecodeError(base64::DecodeError);

/// `base64::Engine::encode` on the `STANDARD` engine.  Trusted: the result is
/// the base64 text of the bytes in the standard alphabet, padded.  The engine
/// panics when the length of the text does not fit `usize`, which `requires`
/// rules out.
#[verifier::external_body]
fn encode_standard(bytes: &[u8]) -> (text: String)
    requires
        encodable(bytes@.len()),
    ensures
        text@ == base64_text(bytes@),
{
    base64::Engine::encode(&base64::engine::general_purpose::STANDARD, bytes)
}

/// `base64::Engine::decode` on the `STANDARD` engine.  Trusted: the engine
/// accepts exactly the canonical texts, those that are the base64 text of
/// some bytes, and gives bytes of which the text is the base64 text.
#[verifier::external_body]
fn decode_standard(text: &str) -> (result: Result<Vec<u8>, base64::DecodeError>)
    ensures
        match result {
            Ok(bytes) => base64_text(bytes@) == text@,
            Err(_) => !is_base64(text@),
        },
{
    base64::Engine::decode(&base64::engine::general_purpose::STANDARD, text)
}

/// The base64 text of `bytes`, or `None` when the text would be longer than
/// any string can be.
pub fn to_base64(bytes: &[u8]) -> (text: Option<String>)
    ensures
        match text {
            Some(t) => encodable(bytes@.len()) && t@ == base64_text(bytes@) && t@.len()
                == base64_len(bytes@.len()),
            None => !encodable(bytes@.len()),
        },
{
    proof {
        lemma_base64_len(bytes@);
    }
    let n = bytes.len();
    let groups = if n % 3 == 0 {
        n / 3
    } else {
        n / 3 + 1
    };
    if groups > usize::MAX / 4 {
        None
    } else {
        Some(encode_standard(bytes))
    }
}

/// The bytes of which `text` is the base64 text, or `None` when there are
/// none.
pub fn from_base64(text: &str) -> (bytes: Option<Vec<u8>>)
    ensures
        match bytes {
            Some(b) => base64_bytes(text@) == Some(b@) && base64_text(b@) == text@,
            None => base64_bytes(text@) is None,
        },
{
    match decode_standard(text) {
        Ok(bytes) => {
            proof {
                lemma_base64_round_trip(bytes@);
            }
            Some(bytes)
        },
        Err(_) => None,
    }
}

} // verus!
