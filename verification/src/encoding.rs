//! Base64.

use vstd::prelude::*;
use vstd::string::*;

verus! {

// ---------------------------------------------------------------------------
// What base64 is
// ---------------------------------------------------------------------------

/// The character that stands for six bits: `A` to `Z`, `a` to `z`, `0` to `9`,
/// `+` and `/`.
pub open spec fn base64_char(n: int) -> char {
    if n < 26 {
        (65 + n) as char
    } else if n < 52 {
        (71 + n) as char
    } else if n < 62 {
        (n - 4) as char
    } else if n == 62 {
        '+'
    } else {
        '/'
    }
}

/// The characters that stand for three bytes, six bits each.
pub open spec fn base64_group(x: int, y: int, z: int) -> Seq<char> {
    seq![
        base64_char(x / 4),
        base64_char(x % 4 * 16 + y / 16),
        base64_char(y % 16 * 4 + z / 64),
        base64_char(z % 64),
    ]
}

/// What bytes are written as in base64: group by group, the last one padded with
/// `=` where bytes are missing.
pub open spec fn base64_text(b: Seq<u8>) -> Seq<char>
    decreases b.len(),
{
    if b.len() == 0 {
        Seq::empty()
    } else if b.len() == 1 {
        base64_group(b[0] as int, 0, 0).take(2) + seq!['=', '=']
    } else if b.len() == 2 {
        base64_group(b[0] as int, b[1] as int, 0).take(3) + seq!['=']
    } else {
        base64_group(b[0] as int, b[1] as int, b[2] as int) + base64_text(b.skip(3))
    }
}

/// The words in which a text is refused that is not base64.
pub uninterp spec fn base64_complaint(text: Seq<char>) -> Seq<char>;

/// Whether a text in base64 stands for these bytes.
pub open spec fn is_read_as(text: Seq<char>, bytes: Seq<u8>) -> bool {
    text == base64_text(bytes)
}

/// The bytes that a text in base64 stands for, or the message that it is none.
pub open spec fn base64_bytes(text: Seq<char>) -> Result<Seq<u8>, Seq<char>> {
    if exists|bytes: Seq<u8>| is_read_as(text, bytes) {
        Ok(choose|bytes: Seq<u8>| is_read_as(text, bytes))
    } else {
        Err(base64_complaint(text))
    }
}

// ---------------------------------------------------------------------------
// Trusted: encoding and decoding
// ---------------------------------------------------------------------------

/// `base64::Engine::encode` with the engine `STANDARD`: the bytes in base64, with
/// the standard alphabet and padding.
#[verifier::external_body]
pub(crate) fn base64_encode(bytes: &[u8]) -> (r: String)
    ensures
        r@ == base64_text(bytes@),
{
    base64::Engine::encode(&base64::engine::general_purpose::STANDARD, bytes)
}

/// `base64::Engine::decode` with the engine `STANDARD`, which accepts what bytes
/// are written as and nothing else: the padding has to be there, and the bits
/// that no byte uses have to be zero. Any other text is refused, in words that
/// depend on the text alone.
#[verifier::external_body]
pub(crate) fn base64_decode(text: &str) -> (r: Result<Vec<u8>, String>)
    ensures
        match r {
            Ok(bytes) => is_read_as(text@, bytes@),
            Err(message) => message@ == base64_complaint(text@) && forall|bytes: Seq<u8>|
                !is_read_as(text@, bytes),
        },
{
    match base64::Engine::decode(&base64::engine::general_purpose::STANDARD, text) {
        Ok(bytes) => Ok(bytes),
        Err(e) => Err(e.to_string()),
    }
}

/// Decodes a text in base64.
pub fn decode(text: &str) -> (r: Result<Vec<u8>, String>)
    ensures
        match r {
            Ok(bytes) => base64_bytes(text@) == Ok::<Seq<u8>, Seq<char>>(bytes@),
            Err(message) => base64_bytes(text@) == Err::<Seq<u8>, Seq<char>>(message@),
        },
{
    match base64_decode(text) {
        Ok(bytes) => {
            proof {
                base64_is_read_back(bytes@);
            }
            Ok(bytes)
        },
        Err(message) => Err(message),
    }
}

// ---------------------------------------------------------------------------
// Laws
// ---------------------------------------------------------------------------

/// Whether a character can stand in base64: a letter or digit of ASCII, `+`, `/`
/// or the padding `=`.
pub open spec fn is_base64_char(c: char) -> bool {
    ||| 'A' <= c <= 'Z'
    ||| 'a' <= c <= 'z'
    ||| '0' <= c <= '9'
    ||| c == '+'
    ||| c == '/'
    ||| c == '='
}

/// Whether a text is made of such characters.
pub open spec fn is_base64(s: Seq<char>) -> bool {
    forall|i: int| 0 <= i < s.len() ==> is_base64_char(#[trigger] s[i])
}

proof fn lemma_base64_char(n: int)
    requires
        0 <= n < 64,
    ensures
        is_base64_char(base64_char(n)),
        base64_char(n) != '=',
{
}

proof fn lemma_base64_char_injective(m: int, n: int)
    requires
        0 <= m < 64,
        0 <= n < 64,
        base64_char(m) == base64_char(n),
    ensures
        m == n,
{
}

proof fn lemma_base64_group(x: int, y: int, z: int)
    requires
        0 <= x < 256,
        0 <= y < 256,
        0 <= z < 256,
    ensures
        base64_group(x, y, z).len() == 4,
        forall|i: int|
            0 <= i < 4 ==> is_base64_char(#[trigger] base64_group(x, y, z)[i]) && base64_group(
                x,
                y,
                z,
            )[i] != '=',
{
    lemma_base64_char(x / 4);
    lemma_base64_char(x % 4 * 16 + y / 16);
    lemma_base64_char(y % 16 * 4 + z / 64);
    lemma_base64_char(z % 64);
}

/// How long a text in base64 is, and what it is made of.
pub proof fn base64_is_made_of_groups(b: Seq<u8>)
    ensures
        base64_text(b).len() == (b.len() + 2) / 3 * 4,
        is_base64(base64_text(b)),
    decreases b.len(),
{
    if b.len() == 0 {
    } else if b.len() == 1 {
        lemma_base64_group(b[0] as int, 0, 0);
    } else if b.len() == 2 {
        lemma_base64_group(b[0] as int, b[1] as int, 0);
    } else {
        let group = base64_group(b[0] as int, b[1] as int, b[2] as int);
        lemma_base64_group(b[0] as int, b[1] as int, b[2] as int);
        base64_is_made_of_groups(b.skip(3));
        assert forall|i: int| 0 <= i < base64_text(b).len() implies is_base64_char(
            #[trigger] base64_text(b)[i],
        ) by {
            if i < 4 {
                assert(base64_text(b)[i] == group[i]);
            } else {
                assert(base64_text(b)[i] == base64_text(b.skip(3))[i - 4]);
            }
        }
    }
}

proof fn lemma_base64_group_injective(x: int, y: int, z: int, u: int, v: int, w: int, k: int)
    requires
        0 <= x < 256,
        0 <= y < 256,
        0 <= z < 256,
        0 <= u < 256,
        0 <= v < 256,
        0 <= w < 256,
        2 <= k <= 4,
        forall|i: int|
            0 <= i < k ==> #[trigger] base64_group(x, y, z)[i] == base64_group(u, v, w)[i],
    ensures
        k == 2 && y == 0 && v == 0 ==> x == u,
        k == 3 && z == 0 && w == 0 ==> x == u && y == v,
        k == 4 ==> x == u && y == v && z == w,
{
    let a = base64_group(x, y, z);
    let b = base64_group(u, v, w);
    assert(a[0] == b[0] && a[1] == b[1]);
    lemma_base64_char_injective(x / 4, u / 4);
    lemma_base64_char_injective(x % 4 * 16 + y / 16, u % 4 * 16 + v / 16);
    if k > 2 {
        assert(a[2] == b[2]);
        lemma_base64_char_injective(y % 16 * 4 + z / 64, v % 16 * 4 + w / 64);
    }
    if k > 3 {
        assert(a[3] == b[3]);
        lemma_base64_char_injective(z % 64, w % 64);
    }
}

/// Different bytes are written differently.
pub proof fn base64_is_injective(a: Seq<u8>, b: Seq<u8>)
    requires
        base64_text(a) == base64_text(b),
    ensures
        a == b,
    decreases a.len(),
{
    base64_is_made_of_groups(a);
    base64_is_made_of_groups(b);
    let s = base64_text(a);
    if a.len() == 0 || b.len() == 0 {
        assert(a =~= b);
    } else {
        let x: int = a[0] as int;
        let y: int = if a.len() > 1 { a[1] as int } else { 0 };
        let z: int = if a.len() > 2 { a[2] as int } else { 0 };
        let u: int = b[0] as int;
        let v: int = if b.len() > 1 { b[1] as int } else { 0 };
        let w: int = if b.len() > 2 { b[2] as int } else { 0 };
        let g = base64_group(x, y, z);
        let h = base64_group(u, v, w);
        lemma_base64_group(x, y, z);
        lemma_base64_group(u, v, w);
        let k: int = if a.len() < 3 { a.len() as int + 1 } else { 4 };
        let m: int = if b.len() < 3 { b.len() as int + 1 } else { 4 };
        assert forall|i: int| 0 <= i < k implies s[i] == g[i] by {}
        assert forall|i: int| 0 <= i < m implies s[i] == h[i] by {}
        assert(s[2] == '=' <==> a.len() == 1);
        assert(s[2] == '=' <==> b.len() == 1);
        assert(s[3] == '=' <==> a.len() < 3);
        assert(s[3] == '=' <==> b.len() < 3);
        assert(k == m);
        lemma_base64_group_injective(x, y, z, u, v, w, k);
        if a.len() >= 3 {
            assert(base64_text(a.skip(3)) =~= s.skip(4));
            assert(base64_text(b.skip(3)) =~= s.skip(4));
            base64_is_injective(a.skip(3), b.skip(3));
            assert(a =~= seq![a[0], a[1], a[2]] + a.skip(3));
            assert(b =~= seq![b[0], b[1], b[2]] + b.skip(3));
        } else {
            assert(a =~= b);
        }
    }
}

/// What bytes are written as is read back as these bytes.
pub proof fn base64_is_read_back(bytes: Seq<u8>)
    ensures
        base64_bytes(base64_text(bytes)) == Ok::<Seq<u8>, Seq<char>>(bytes),
{
    let text = base64_text(bytes);
    assert(is_read_as(text, bytes));
    let read = choose|b: Seq<u8>| is_read_as(text, b);
    base64_is_injective(read, bytes);
}

proof fn lemma_base64_split(b: Seq<u8>, i: int)
    requires
        0 <= i,
        3 * i <= b.len(),
    ensures
        base64_text(b) == base64_text(b.take(3 * i)) + base64_text(b.skip(3 * i)),
        base64_text(b.take(3 * i)).len() == 4 * i,
    decreases i,
{
    base64_is_made_of_groups(b.take(3 * i));
    if i == 0 {
        assert(b.skip(0) =~= b);
        assert(base64_text(b.take(0)) =~= Seq::<char>::empty());
        assert(base64_text(b) =~= base64_text(b.take(0)) + base64_text(b));
    } else {
        let rest = b.skip(3);
        lemma_base64_split(rest, i - 1);
        assert(rest.take(3 * (i - 1)) =~= b.take(3 * i).skip(3));
        assert(rest.skip(3 * (i - 1)) =~= b.skip(3 * i));
        assert(base64_text(b) =~= base64_text(b.take(3 * i)) + base64_text(b.skip(3 * i)));
    }
}

/// Whole groups can be read for themselves: the part of a text from one group to
/// another is what the bytes in that place are written as.
pub proof fn groups_stand_for_themselves(b: Seq<u8>, i: int, j: int)
    requires
        0 <= i <= j,
        3 * i <= b.len(),
    ensures
        ({
            let last = if 3 * j <= b.len() {
                3 * j
            } else {
                b.len() as int
            };
            let end = if 3 * j <= b.len() {
                4 * j
            } else {
                base64_text(b).len() as int
            };
            &&& 4 * i <= end <= base64_text(b).len()
            &&& base64_text(b).subrange(4 * i, end) == base64_text(b.subrange(3 * i, last))
        }),
{
    lemma_base64_split(b, i);
    let text = base64_text(b);
    if 3 * j <= b.len() {
        lemma_base64_split(b, j);
        let head = b.take(3 * j);
        lemma_base64_split(head, i);
        assert(head.take(3 * i) =~= b.take(3 * i));
        assert(head.skip(3 * i) =~= b.subrange(3 * i, 3 * j));
        assert(text.subrange(4 * i, 4 * j) =~= base64_text(b.subrange(3 * i, 3 * j)));
    } else {
        assert(b.skip(3 * i) =~= b.subrange(3 * i, b.len() as int));
        assert(text.subrange(4 * i, text.len() as int) =~= base64_text(b.skip(3 * i)));
    }
}

} // verus!
