//! The API key as it is kept in the system key store: its UTF-8 bytes going
//! in, and the text read back.
use vstd::prelude::*;
use crate::verify::lit;

verus! {

/// The UTF-8 encoding of one character.
pub open spec fn utf8_char(c: char) -> Seq<u8> {
    let u = c as u32;
    if u < 0x80 {
        seq![u as u8]
    } else if u < 0x800 {
        seq![(0xc0 + u / 64) as u8, (0x80 + u % 64) as u8]
    } else if u < 0x10000 {
        seq![(0xe0 + u / 4096) as u8, (0x80 + (u / 64) % 64) as u8, (0x80 + u % 64) as u8]
    } else {
        seq![
            (0xf0 + u / 262144) as u8,
            (0x80 + (u / 4096) % 64) as u8,
            (0x80 + (u / 64) % 64) as u8,
            (0x80 + u % 64) as u8,
        ]
    }
}

/// The UTF-8 encoding of a text.
pub open spec fn utf8(s: Seq<char>) -> Seq<u8>
    decreases s.len(),
{
    if s.len() == 0 {
        Seq::empty()
    } else {
        utf8(s.drop_last()) + utf8_char(s.last())
    }
}

fn push_utf8_char(out: &mut Vec<u8>, c: char)
    ensures
        final(out)@ == old(out)@ + utf8_char(c),
{
    let u = c as u32;
    let ghost before = out@;
    if u < 0x80 {
        out.push(u as u8);
    } else if u < 0x800 {
        out.push((0xc0 + u / 64) as u8);
        out.push((0x80 + u % 64) as u8);
    } else if u < 0x10000 {
        out.push((0xe0 + u / 4096) as u8);
        out.push((0x80 + (u / 64) % 64) as u8);
        out.push((0x80 + u % 64) as u8);
    } else {
        out.push((0xf0 + u / 262144) as u8);
        out.push((0x80 + (u / 4096) % 64) as u8);
        out.push((0x80 + (u / 64) % 64) as u8);
        out.push((0x80 + u % 64) as u8);
    }
    assert(out@ =~= before + utf8_char(c));
}

/// The bytes that are handed to the system key store when the key is saved:
/// its UTF-8 encoding.
pub fn save_api_key(api_key: &str) -> (r: Vec<u8>)
    ensures
        r@ == utf8(api_key@),
{
    let mut out: Vec<u8> = Vec::new();
    for c in it: api_key.chars()
        invariant
            it.seq() == api_key@,
            out@ == utf8(it.seq().take(it.index() as int)),
    {
        let ghost k = it.index();
        push_utf8_char(&mut out, c);
        proof {
            assert(it.seq().take(k + 1).drop_last() =~= it.seq().take(k as int));
        }
    }
    proof {
        assert(api_key@.take(api_key@.len() as int) =~= api_key@);
    }
    out
}

/// `String::from_utf8`: the text whose UTF-8 encoding the bytes are, if the
/// bytes are valid UTF-8. The claim is what std documents: `Ok` exactly for
/// valid UTF-8, with the same bytes.
#[verifier::external_body]
pub(crate) fn string_from_utf8(bytes: Vec<u8>) -> (r: Option<String>)
    ensures
        r matches Some(s) ==> utf8(s@) == bytes@,
        r is None ==> forall|t: Seq<char>| utf8(t) != bytes@,
{
    String::from_utf8(bytes).ok()
}

/// The message given when the decrypted key is not text.
pub open spec fn not_utf8_message() -> Seq<char> {
    "API Key 解密后不是有效 UTF-8"@
}

/// Reading the key back: `stored` is what the key store gave (`None` when no key
/// is stored; else the decrypted bytes, or the error of reading or decrypting).
/// The key is the text those bytes encode.
pub fn load_api_key(stored: Option<Result<Vec<u8>, String>>) -> (r: Result<Option<String>, String>)
    ensures
        match stored {
            None => r == Ok::<Option<String>, String>(None),
            Some(Err(e)) => r matches Err(m) && m@ == e@,
            Some(Ok(b)) => match r {
                Ok(Some(s)) => utf8(s@) == b@,
                Ok(None) => false,
                Err(m) => m@ == not_utf8_message() && forall|t: Seq<char>| utf8(t) != b@,
            },
        },
{
    match stored {
        None => Ok(None),
        Some(Err(e)) => Err(e),
        Some(Ok(b)) => match string_from_utf8(b) {
            Some(s) => Ok(Some(s)),
            None => Err(lit("API Key 解密后不是有效 UTF-8")),
        },
    }
}


/// Whether a byte continues a multi-byte UTF-8 sequence.
pub open spec fn is_cont(b: u8) -> bool {
    0x80 <= b && b < 0xc0
}

proof fn lemma_utf8_char_shape(c: char)
    ensures
        utf8_char(c).len() >= 1,
        utf8_char(c).len() <= 4,
        !is_cont(utf8_char(c)[0]),
        forall|k: int| 1 <= k < utf8_char(c).len() ==> is_cont(#[trigger] utf8_char(c)[k]),
{
    let u = c as u32;
    assert(u <= 0x10ffff);
}

proof fn lemma_utf8_char_injective(a: char, b: char)
    requires
        utf8_char(a) == utf8_char(b),
    ensures
        a == b,
{
    let u = a as u32;
    let v = b as u32;
    let x = utf8_char(a);
    assert(u <= 0x10ffff && v <= 0x10ffff);
    if u < 0x80 {
        assert(x.len() == 1);
        assert(x[0] == u as u8);
    } else if u < 0x800 {
        assert(x.len() == 2);
    } else if u < 0x10000 {
        assert(x.len() == 3);
    } else {
        assert(x.len() == 4);
    }
    assert(utf8_char(b).len() == x.len());
    if u < 0x80 {
        assert(v < 0x80);
    } else if u < 0x800 {
        assert(0x80 <= v < 0x800);
        assert(u / 64 == v / 64);
        assert(u % 64 == v % 64);
    } else if u < 0x10000 {
        assert(0x800 <= v < 0x10000);
        assert(u / 4096 == v / 4096);
        assert((u / 64) % 64 == (v / 64) % 64);
        assert(u % 64 == v % 64);
        assert(u / 64 == (u / 4096) * 64 + (u / 64) % 64);
        assert(v / 64 == (v / 4096) * 64 + (v / 64) % 64);
    } else {
        assert(v >= 0x10000);
        assert(u / 262144 == v / 262144);
        assert((u / 4096) % 64 == (v / 4096) % 64);
        assert((u / 64) % 64 == (v / 64) % 64);
        assert(u % 64 == v % 64);
        assert(u / 4096 == (u / 262144) * 64 + (u / 4096) % 64);
        assert(v / 4096 == (v / 262144) * 64 + (v / 4096) % 64);
        assert(u / 64 == (u / 4096) * 64 + (u / 64) % 64);
        assert(v / 64 == (v / 4096) * 64 + (v / 64) % 64);
    }
    assert(u == v);
    vstd::utf8::char_u32_cast(a, u);
    vstd::utf8::char_u32_cast(b, v);
}

proof fn lemma_utf8_len(s: Seq<char>)
    ensures
        s.len() > 0 ==> utf8(s).len() > 0,
{
    if s.len() > 0 {
        lemma_utf8_char_shape(s.last());
    }
}

/// A text is the only one with its UTF-8 encoding.
pub proof fn lemma_utf8_injective(a: Seq<char>, b: Seq<char>)
    requires
        utf8(a) == utf8(b),
    ensures
        a == b,
    decreases a.len(),
{
    lemma_utf8_len(a);
    lemma_utf8_len(b);
    if a.len() == 0 || b.len() == 0 {
        if a.len() == 0 && b.len() == 0 {
            assert(a =~= b);
        }
        return;
    }
    let s = utf8(a);
    let x = utf8_char(a.last());
    let y = utf8_char(b.last());
    let pa = utf8(a.drop_last());
    let pb = utf8(b.drop_last());
    lemma_utf8_char_shape(a.last());
    lemma_utf8_char_shape(b.last());
    assert(s == pa + x);
    assert(s == pb + y);
    let n = s.len();
    if x.len() < y.len() {
        assert(s[n - x.len()] == x[0]);
        assert(s[n - x.len()] == y[y.len() - x.len()]);
        assert(is_cont(y[y.len() - x.len()]));
    } else if y.len() < x.len() {
        assert(s[n - y.len()] == y[0]);
        assert(s[n - y.len()] == x[x.len() - y.len()]);
        assert(is_cont(x[x.len() - y.len()]));
    }
    assert(x.len() == y.len());
    assert(x =~= s.subrange(n - x.len(), n as int));
    assert(y =~= s.subrange(n - y.len(), n as int));
    lemma_utf8_char_injective(a.last(), b.last());
    assert(pa =~= s.subrange(0, n - x.len()));
    assert(pb =~= s.subrange(0, n - y.len()));
    lemma_utf8_injective(a.drop_last(), b.drop_last());
    assert(a =~= a.drop_last().push(a.last()));
    assert(b =~= b.drop_last().push(b.last()));
}

} // verus!
