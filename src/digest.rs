use vstd::prelude::*;
use vstd::utf8::encode_utf8;

use sha2::Digest;


verus! {

/// The SHA-256 digest of a byte string.
pub uninterp spec fn sha256_of(data: Seq<u8>) -> Seq<u8>;

/// Relies on `sha2::Sha256::digest`: the 32-byte SHA-256 digest of `data`,
/// which depends on `data` alone.
#[verifier::external_body]
fn sha256_digest(data: &[u8]) -> (r: Vec<u8>)
    ensures
        r@ == sha256_of(data@),
        r@.len() == 32,
{
    sha2::Sha256::digest(data).to_vec()
}

/// The lower-case hexadecimal digit of a value below 16.
pub open spec fn hex_digit(n: u8) -> char {
    if n < 10 {
        (48 + n) as char
    } else {
        (87 + n) as char
    }
}

/// Two lower-case hexadecimal digits per byte, high nibble first.
pub open spec fn hex_seq(b: Seq<u8>) -> Seq<char>
    decreases b.len(),
{
    if b.len() == 0 {
        Seq::empty()
    } else {
        hex_seq(b.drop_last()) + seq![hex_digit(b.last() / 16), hex_digit(b.last() % 16)]
    }
}

/// Relies on `hex::encode`: two lower-case hexadecimal digits per byte,
/// high nibble first.
#[verifier::external_body]
fn hex_encode(data: &[u8]) -> (r: String)
    ensures
        r@ == hex_seq(data@),
{
    hex::encode(data)
}

/// The content hash of a payload: its SHA-256 digest in lower-case hex.
pub open spec fn content_hash_of(data: Seq<u8>) -> Seq<char> {
    hex_seq(sha256_of(data))
}

/// The content hash of a payload: its SHA-256 digest in lower-case hex.
pub fn content_hash(data: &[u8]) -> (r: String)
    ensures
        r@ == content_hash_of(data@),
{
    let d = sha256_digest(data);
    hex_encode(&d)
}

/// The byte of a hexadecimal digit character.
pub open spec fn hex_code(n: u8) -> u8 {
    if n < 10 {
        (48 + n) as u8
    } else {
        (87 + n) as u8
    }
}

/// Two hexadecimal digit bytes per byte, high nibble first.
pub open spec fn hex_codes(b: Seq<u8>) -> Seq<u8>
    decreases b.len(),
{
    if b.len() == 0 {
        Seq::empty()
    } else {
        hex_codes(b.drop_last()) + seq![hex_code(b.last() / 16), hex_code(b.last() % 16)]
    }
}

/// One optional text field of a fingerprint: `0` when absent, else `1`, the
/// hex digits of its UTF-8 bytes, and `:`. Hex digits are never `0`, `1` or
/// `:`, so the fields of a fingerprint cannot run into each other.
pub open spec fn field_codes(f: Option<Seq<char>>) -> Seq<u8> {
    match f {
        None => seq![0u8],
        Some(s) => seq![1u8] + hex_codes(encode_utf8(s)) + seq![58u8],
    }
}

/// What a request fingerprint is the digest of: the name, the tag, the
/// content type and the content hash.
pub open spec fn fingerprint_input(
    name: Option<Seq<char>>,
    tag: Option<Seq<char>>,
    content_type: Option<Seq<char>>,
    data: Seq<u8>,
) -> Seq<u8> {
    field_codes(name) + field_codes(tag) + field_codes(content_type) + hex_codes(
        sha256_of(data),
    )
}

/// The fingerprint of a create request.
pub open spec fn fingerprint_of(
    name: Option<Seq<char>>,
    tag: Option<Seq<char>>,
    content_type: Option<Seq<char>>,
    data: Seq<u8>,
) -> Seq<char> {
    content_hash_of(fingerprint_input(name, tag, content_type, data))
}

/// The view of an optional string.
pub open spec fn opt_view(s: Option<String>) -> Option<Seq<char>> {
    match s {
        Some(v) => Some(v@),
        None => None,
    }
}

fn push_hex_codes(out: &mut Vec<u8>, b: &[u8])
    ensures
        final(out)@ == old(out)@ + hex_codes(b@),
{
    let mut i: usize = 0;
    while i < b.len()
        invariant
            i <= b@.len(),
            out@ == old(out)@ + hex_codes(b@.take(i as int)),
        decreases b@.len() - i,
    {
        let x = b[i];
        let hi = x / 16;
        let lo = x % 16;
        out.push(if hi < 10 { 48 + hi } else { 87 + hi });
        out.push(if lo < 10 { 48 + lo } else { 87 + lo });
        i = i + 1;
        assert(b@.take(i as int).drop_last() =~= b@.take(i - 1));
        assert(old(out)@ + hex_codes(b@.take(i as int)) =~= old(out)@ + hex_codes(b@.take(i - 1))
            + seq![hex_code(x / 16), hex_code(x % 16)]);
    }
    assert(b@.take(b@.len() as int) =~= b@);
}

fn push_field(out: &mut Vec<u8>, f: &Option<String>)
    ensures
        final(out)@ == old(out)@ + field_codes(opt_view(*f)),
{
    match f {
        None => {
            out.push(0u8);
            assert(final(out)@ =~= old(out)@ + seq![0u8]);
        },
        Some(s) => {
            out.push(1u8);
            let bytes = s.as_str().as_bytes_vec();
            push_hex_codes(out, &bytes);
            out.push(58u8);
            assert(out@ =~= old(out)@ + (seq![1u8] + hex_codes(encode_utf8(s@)) + seq![58u8]));
        },
    }
}

/// The fingerprint of a create request: a digest over its name, tag,
/// content type and content hash, and nothing else.
pub fn request_fingerprint(
    name: &Option<String>,
    tag: &Option<String>,
    content_type: &Option<String>,
    data: &[u8],
) -> (r: String)
    ensures
        r@ == fingerprint_of(opt_view(*name), opt_view(*tag), opt_view(*content_type), data@),
{
    let mut buf: Vec<u8> = Vec::new();
    push_field(&mut buf, name);
    push_field(&mut buf, tag);
    push_field(&mut buf, content_type);
    let d = sha256_digest(data);
    push_hex_codes(&mut buf, &d);
    assert(buf@ =~= fingerprint_input(
        opt_view(*name),
        opt_view(*tag),
        opt_view(*content_type),
        data@,
    ));
    content_hash(&buf)
}

/// A byte that hex encoding writes: a digit or a letter `a` to `f`.
pub open spec fn is_hex_code(b: u8) -> bool {
    (48 <= b <= 57) || (97 <= b <= 102)
}

proof fn lemma_hex_codes_shape(b: Seq<u8>)
    ensures
        hex_codes(b).len() == 2 * b.len(),
        forall|i: int| 0 <= i < hex_codes(b).len() ==> is_hex_code(#[trigger] hex_codes(b)[i]),
    decreases b.len(),
{
    if b.len() > 0 {
        lemma_hex_codes_shape(b.drop_last());
        let x = b.last();
        assert(x / 16 < 16 && x % 16 < 16);
        let h = hex_codes(b);
        let p = hex_codes(b.drop_last());
        assert forall|i: int| 0 <= i < h.len() implies is_hex_code(#[trigger] h[i]) by {
            if i < p.len() {
                assert(h[i] == p[i]);
            }
        }
    }
}

proof fn lemma_hex_code_injective(x: u8, y: u8)
    requires
        x < 16,
        y < 16,
        hex_code(x) == hex_code(y),
    ensures
        x == y,
{
}

proof fn lemma_hex_codes_injective(a: Seq<u8>, b: Seq<u8>)
    requires
        hex_codes(a) == hex_codes(b),
    ensures
        a == b,
    decreases a.len(),
{
    lemma_hex_codes_shape(a);
    lemma_hex_codes_shape(b);
    if a.len() > 0 {
        let ha = hex_codes(a);
        let n = ha.len();
        let pa = hex_codes(a.drop_last());
        let pb = hex_codes(b.drop_last());
        lemma_hex_codes_shape(a.drop_last());
        lemma_hex_codes_shape(b.drop_last());
        assert(ha[n - 2] == hex_code(a.last() / 16));
        assert(ha[n - 1] == hex_code(a.last() % 16));
        assert(hex_codes(b)[n - 2] == hex_code(b.last() / 16));
        assert(hex_codes(b)[n - 1] == hex_code(b.last() % 16));
        lemma_hex_code_injective(a.last() / 16, b.last() / 16);
        lemma_hex_code_injective(a.last() % 16, b.last() % 16);
        let (x, y) = (a.last(), b.last());
        assert(x == y) by (bit_vector)
            requires
                x / 16 == y / 16,
                x % 16 == y % 16,
        ;
        assert(pa =~= ha.take(n - 2));
        assert(pb =~= hex_codes(b).take(n - 2));
        lemma_hex_codes_injective(a.drop_last(), b.drop_last());
        assert(a =~= a.drop_last().push(x));
        assert(b =~= b.drop_last().push(y));
    } else {
        assert(a =~= b);
    }
}

proof fn lemma_field_split(f1: Option<Seq<char>>, r1: Seq<u8>, f2: Option<Seq<char>>, r2: Seq<u8>)
    requires
        field_codes(f1) + r1 == field_codes(f2) + r2,
    ensures
        f1 == f2,
        r1 == r2,
{
    let s1 = field_codes(f1) + r1;
    assert(s1[0] == field_codes(f1)[0]);
    assert(s1[0] == field_codes(f2)[0]);
    match (f1, f2) {
        (None, None) => {
            assert(r1 =~= s1.skip(1));
            assert(r2 =~= (field_codes(f2) + r2).skip(1));
        },
        (Some(a), Some(b)) => {
            let ha = hex_codes(encode_utf8(a));
            let hb = hex_codes(encode_utf8(b));
            lemma_hex_codes_shape(encode_utf8(a));
            lemma_hex_codes_shape(encode_utf8(b));
            let s2 = field_codes(f2) + r2;
            if ha.len() < hb.len() {
                assert(s1[1 + ha.len() as int] == 58u8);
                assert(s2[1 + ha.len() as int] == hb[ha.len() as int]);
                assert(is_hex_code(hb[ha.len() as int]));
            } else if hb.len() < ha.len() {
                assert(s2[1 + hb.len() as int] == 58u8);
                assert(s1[1 + hb.len() as int] == ha[hb.len() as int]);
                assert(is_hex_code(ha[hb.len() as int]));
            } else {
                assert(ha =~= s1.subrange(1, 1 + ha.len() as int));
                assert(hb =~= s2.subrange(1, 1 + hb.len() as int));
                lemma_hex_codes_injective(encode_utf8(a), encode_utf8(b));
                vstd::utf8::encode_utf8_decode_utf8(a);
                vstd::utf8::encode_utf8_decode_utf8(b);
                assert(r1 =~= s1.skip(2 + ha.len() as int));
                assert(r2 =~= s2.skip(2 + hb.len() as int));
            }
        },
        _ => {},
    }
}

/// What a fingerprint digests tells its request apart: two requests whose
/// name, tag, content type or content hash differ have different
/// fingerprint inputs. (Different inputs then give different fingerprints
/// unless SHA-256 collides.)
#[verifier::rlimit(50)]
pub proof fn lemma_fingerprint_input_injective(
    name: Option<Seq<char>>,
    tag: Option<Seq<char>>,
    content_type: Option<Seq<char>>,
    data: Seq<u8>,
    name2: Option<Seq<char>>,
    tag2: Option<Seq<char>>,
    content_type2: Option<Seq<char>>,
    data2: Seq<u8>,
)
    requires
        fingerprint_input(name, tag, content_type, data) == fingerprint_input(
            name2,
            tag2,
            content_type2,
            data2,
        ),
    ensures
        name == name2,
        tag == tag2,
        content_type == content_type2,
        sha256_of(data) == sha256_of(data2),
{
    let a1 = field_codes(name);
    let b1 = field_codes(tag);
    let c1 = field_codes(content_type);
    let d1 = hex_codes(sha256_of(data));
    let a2 = field_codes(name2);
    let b2 = field_codes(tag2);
    let c2 = field_codes(content_type2);
    let d2 = hex_codes(sha256_of(data2));
    let q1 = c1 + d1;
    let q2 = c2 + d2;
    let r1 = b1 + q1;
    let r2 = b2 + q2;
    vstd::seq_lib::lemma_concat_associative(a1, b1, c1);
    vstd::seq_lib::lemma_concat_associative(a1 + b1, c1, d1);
    vstd::seq_lib::lemma_concat_associative(a1, b1, q1);
    vstd::seq_lib::lemma_concat_associative(b1, c1, d1);
    vstd::seq_lib::lemma_concat_associative(a2, b2, c2);
    vstd::seq_lib::lemma_concat_associative(a2 + b2, c2, d2);
    vstd::seq_lib::lemma_concat_associative(a2, b2, q2);
    vstd::seq_lib::lemma_concat_associative(b2, c2, d2);
    assert(fingerprint_input(name, tag, content_type, data) == a1 + r1);
    assert(fingerprint_input(name2, tag2, content_type2, data2) == a2 + r2);
    lemma_field_split(name, r1, name2, r2);
    lemma_field_split(tag, q1, tag2, q2);
    lemma_field_split(content_type, hex_codes(sha256_of(data)), content_type2, hex_codes(sha256_of(data2)));
    lemma_hex_codes_injective(sha256_of(data), sha256_of(data2));
}

} // verus!
