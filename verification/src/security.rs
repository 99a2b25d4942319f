//! Credentials: symmetric encryption of secrets, password hashing and
//! random identifiers and tokens.

use vstd::prelude::*;
use vstd::utf8::{encode_utf8, is_ascii_chars, is_ascii_chars_encode_utf8};
use magic_crypt::MagicCryptTrait;
use crate::text::{chars_of, push_char, replace_char, replace_char_chars, slice_chars, string_of};

verus! {

#[verifier::external_type_specification]
#[verifier::external_body]
pub struct ExMagicCryptError(magic_crypt::MagicCryptError);

/// Why a secret could not be decrypted.
#[derive(Debug, Clone, Copy, PartialEq, Eq, Structural)]
pub enum CryptError {
    /// Reading the input failed.
    Io,
    /// The input is not Base64.
    Base64,
    /// The decrypted bytes are not UTF-8.
    Utf8,
    /// The decrypted block's padding is wrong (wrong key or damaged data).
    Decrypt,
}

/// The Base64 text that AES-256-CBC encryption of `content` under `key`
/// gives (the key hashed with SHA-256, a zero initialisation vector, PKCS#7
/// padding), as `magic_crypt` computes it.
pub uninterp spec fn encrypted_text(key: Seq<char>, content: Seq<char>) -> Seq<char>;

/// What decrypting the Base64 text `data` under `key` gives back, or `None`
/// when `magic_crypt` refuses it.
pub uninterp spec fn decrypted_text(key: Seq<char>, data: Seq<char>) -> Option<Seq<char>>;

/// A character of the standard Base64 alphabet, or the padding `=`.
pub open spec fn is_base64_char(c: char) -> bool {
    ('A' <= c && c <= 'Z') || ('a' <= c && c <= 'z') || ('0' <= c && c <= '9') || c == '+' || c
        == '/' || c == '='
}

/// Text in the shape of padded standard Base64: Base64 characters only, in
/// groups of four.
pub open spec fn base64_shaped(t: Seq<char>) -> bool {
    t.len() % 4 == 0 && forall|i: int| 0 <= i < t.len() ==> is_base64_char(#[trigger] t[i])
}

/// The number of `=` that pad the end of a Base64 text (at most two).
pub open spec fn trailing_pads(t: Seq<char>) -> int {
    if t.len() >= 1 && t.last() == '=' {
        if t.len() >= 2 && t[t.len() - 2] == '=' {
            2
        } else {
            1
        }
    } else {
        0
    }
}

/// The six-bit value of a character of the standard Base64 alphabet.
pub open spec fn base64_value(c: char) -> int {
    if 'A' <= c && c <= 'Z' {
        c as int - 65
    } else if 'a' <= c && c <= 'z' {
        c as int - 71
    } else if '0' <= c && c <= '9' {
        c as int + 4
    } else if c == '+' {
        62
    } else {
        63
    }
}

/// Canonical padded standard Base64: Base64 characters in groups of four,
/// `=` only among the last two characters (and a `=` second to last only
/// before another `=`), and no bits set past the last encoded byte.
pub open spec fn canonical_base64(t: Seq<char>) -> bool {
    &&& base64_shaped(t)
    &&& forall|i: int| 0 <= i < t.len() && #[trigger] t[i] == '=' ==> i >= t.len() - 2
    &&& (t.len() >= 2 && t[t.len() - 2] == '=' ==> t[t.len() - 1] == '=')
    &&& (trailing_pads(t) == 1 ==> base64_value(t[t.len() - 2]) % 4 == 0)
    &&& (trailing_pads(t) == 2 ==> base64_value(t[t.len() - 3]) % 16 == 0)
}

/// The number of bytes that a padded Base64 text stands for.
pub open spec fn decoded_len(t: Seq<char>) -> int {
    t.len() / 4 * 3 - trailing_pads(t)
}

/// `MagicCrypt256::encrypt_str_to_base64` with no initialisation vector.
/// The result is named; beside it the contract states what the crate's
/// documented round trip shows (decrypting the result under the same key
/// gives the content back) and the shape of its output: canonical padded
/// standard Base64 of a non-empty whole number of 16-byte blocks.
#[verifier::external_body]
fn aes256_encrypt_to_base64(key: &str, content: &str) -> (r: String)
    ensures
        r@ == encrypted_text(key@, content@),
        decrypted_text(key@, r@) == Some(content@),
        canonical_base64(r@),
        decoded_len(r@) > 0 && decoded_len(r@) % 16 == 0,
{
    let mcrypt = <magic_crypt::MagicCrypt256 as MagicCryptTrait>::new(key, None::<&[u8]>);
    mcrypt.encrypt_str_to_base64(content)
}

/// `MagicCrypt256::decrypt_base64_to_string` with no initialisation vector:
/// succeeds exactly when the named result is some text, and gives that
/// text. It succeeds only on canonical padded standard Base64 that stands for a
/// non-empty whole number of 16-byte blocks (the canonical Base64 decoding
/// and the block cipher refuse anything else). Which error comes otherwise
/// is not stated.
#[verifier::external_body]
fn aes256_decrypt_from_base64(key: &str, data: &str) -> (r: Result<String, magic_crypt::MagicCryptError>)
    ensures
        r is Ok <==> decrypted_text(key@, data@) is Some,
        r matches Ok(s) ==> decrypted_text(key@, data@) == Some(s@),
        r is Ok ==> canonical_base64(data@) && decoded_len(data@) > 0 && decoded_len(data@) % 16
            == 0,
{
    let mcrypt = <magic_crypt::MagicCrypt256 as MagicCryptTrait>::new(key, None::<&[u8]>);
    mcrypt.decrypt_base64_to_string(data)
}

/// Tells the variants of `magic_crypt::MagicCryptError` apart; nothing is
/// stated of which one a given error is.
#[verifier::external_body]
fn crypt_error_kind(e: &magic_crypt::MagicCryptError) -> (k: CryptError) {
    match e {
        magic_crypt::MagicCryptError::IOError(_) => CryptError::Io,
        magic_crypt::MagicCryptError::Base64Error(_) => CryptError::Base64,
        magic_crypt::MagicCryptError::StringError(_) => CryptError::Utf8,
        magic_crypt::MagicCryptError::DecryptError(_) => CryptError::Decrypt,
    }
}

/// Encrypts `content` under `key` (AES-256) and gives the result as Base64.
/// Decrypting the result under the same key gives `content` back.
pub fn encrypt(key: &str, content: &str) -> (r: String)
    ensures
        r@ == encrypted_text(key@, content@),
        decrypted_text(key@, r@) == Some(content@),
        canonical_base64(r@),
        decoded_len(r@) > 0 && decoded_len(r@) % 16 == 0,
{
    aes256_encrypt_to_base64(key, content)
}

/// Decrypts the Base64 text `encrypted` under `key` (AES-256). Text that is
/// not canonical padded standard Base64 of a non-empty whole number of 16-byte blocks
/// is refused.
pub fn decrypt(key: &str, encrypted: &str) -> (r: Result<String, CryptError>)
    ensures
        r is Ok <==> decrypted_text(key@, encrypted@) is Some,
        r matches Ok(s) ==> decrypted_text(key@, encrypted@) == Some(s@),
        !(canonical_base64(encrypted@) && decoded_len(encrypted@) > 0 && decoded_len(encrypted@)
            % 16 == 0) ==> r is Err,
{
    match aes256_decrypt_from_base64(key, encrypted) {
        Ok(resolved) => Ok(resolved),
        Err(err) => Err(crypt_error_kind(&err)),
    }
}

/// The lowercase SHA-256 digest, in hexadecimal, of the UTF-8 bytes of
/// `input`, as `sha256::digest` computes it.
pub uninterp spec fn sha256_hex(input: Seq<char>) -> Seq<char>;

/// A lowercase hexadecimal digit.
pub open spec fn is_hex_lower(c: char) -> bool {
    ('0' <= c && c <= '9') || ('a' <= c && c <= 'f')
}

/// Hashes `content` with SHA-256 (`sha256::digest`); the result has 64
/// lowercase hexadecimal characters, as the crate's hex encoding of the
/// 32-byte digest gives.
#[verifier::external_body]
pub fn hash(content: String) -> (r: String)
    ensures
        r@ == sha256_hex(content@),
        r@.len() == 64,
        forall|i: int| 0 <= i < 64 ==> is_hex_lower(#[trigger] r@[i]),
{
    sha256::digest(content)
}

/// The text form of a version-4 UUID: 36 characters, hyphens at positions
/// 8, 13, 18 and 23, lowercase hexadecimal digits elsewhere, the version
/// digit `4` at position 14 and a variant digit of `8`, `9`, `a` or `b` at
/// position 19.
pub open spec fn uuid_v4_shape(u: Seq<char>) -> bool {
    &&& u.len() == 36
    &&& forall|i: int|
        0 <= i < 36 ==> if i == 8 || i == 13 || i == 18 || i == 23 {
            #[trigger] u[i] == '-'
        } else {
            is_hex_lower(u[i])
        }
    &&& u[14] == '4'
    &&& u[19] == '8' || u[19] == '9' || u[19] == 'a' || u[19] == 'b'
}

/// `uuid::Uuid::new_v4().to_string()`: a random version-4 UUID in the
/// crate's lowercase hyphenated form. Which UUID comes is left open.
#[verifier::external_body]
fn uuid_v4_text() -> (r: String)
    ensures
        uuid_v4_shape(r@),
{
    uuid::Uuid::new_v4().to_string()
}


proof fn lemma_replace_char_concat(a: Seq<char>, b: Seq<char>, c: char, r: Seq<char>)
    ensures
        replace_char(a + b, c, r) == replace_char(a, c, r) + replace_char(b, c, r),
    decreases b.len(),
{
    if b.len() == 0 {
        assert(a + b == a);
        assert(replace_char(b, c, r) == b);
        assert(replace_char(a, c, r) + b == replace_char(a, c, r));
    } else {
        lemma_replace_char_concat(a, b.drop_last(), c, r);
        assert((a + b).drop_last() == a + b.drop_last());
        assert((a + b).last() == b.last());
    }
}

proof fn lemma_replace_char_absent(s: Seq<char>, c: char, r: Seq<char>)
    requires
        forall|i: int| 0 <= i < s.len() ==> s[i] != c,
    ensures
        replace_char(s, c, r) == s,
    decreases s.len(),
{
    if s.len() > 0 {
        lemma_replace_char_absent(s.drop_last(), c, r);
        assert(s.drop_last().push(s.last()) == s);
    }
}

/// The 32 digits of a UUID's text without its hyphens.
pub open spec fn uuid_digits(u: Seq<char>) -> Seq<char> {
    replace_char(u, '-', Seq::empty())
}

proof fn lemma_uuid_digits(u: Seq<char>)
    requires
        uuid_v4_shape(u),
    ensures
        uuid_digits(u).len() == 32,
        forall|i: int| 0 <= i < 32 ==> is_hex_lower(#[trigger] uuid_digits(u)[i]),
        uuid_digits(u)[12] == '4',
        uuid_digits(u)[16] == '8' || uuid_digits(u)[16] == '9' || uuid_digits(u)[16] == 'a'
            || uuid_digits(u)[16] == 'b',
{
    let e = Seq::<char>::empty();
    let p0 = u.subrange(0, 8);
    let p1 = u.subrange(9, 13);
    let p2 = u.subrange(14, 18);
    let p3 = u.subrange(19, 23);
    let p4 = u.subrange(24, 36);
    let h = seq!['-'];
    assert(u[8] == '-' && u[13] == '-' && u[18] == '-' && u[23] == '-');
    assert(u =~= p0 + h + p1 + h + p2 + h + p3 + h + p4);
    assert forall|i: int| 0 <= i < p0.len() implies p0[i] != '-' by { assert(is_hex_lower(u[i])); }
    assert forall|i: int| 0 <= i < p1.len() implies p1[i] != '-' by { assert(is_hex_lower(u[9 + i])); }
    assert forall|i: int| 0 <= i < p2.len() implies p2[i] != '-' by { assert(is_hex_lower(u[14 + i])); }
    assert forall|i: int| 0 <= i < p3.len() implies p3[i] != '-' by { assert(is_hex_lower(u[19 + i])); }
    assert forall|i: int| 0 <= i < p4.len() implies p4[i] != '-' by { assert(is_hex_lower(u[24 + i])); }
    lemma_replace_char_absent(p0, '-', e);
    lemma_replace_char_absent(p1, '-', e);
    lemma_replace_char_absent(p2, '-', e);
    lemma_replace_char_absent(p3, '-', e);
    lemma_replace_char_absent(p4, '-', e);
    assert(replace_char(h, '-', e) == e) by {
        assert(h.drop_last() == e);
        assert(h.last() == '-');
        assert(replace_char(e, '-', e) == e);
        assert(e + e == e);
    }
    lemma_replace_char_concat(p0, h, '-', e);
    lemma_replace_char_concat(p0 + h, p1, '-', e);
    lemma_replace_char_concat(p0 + h + p1, h, '-', e);
    lemma_replace_char_concat(p0 + h + p1 + h, p2, '-', e);
    lemma_replace_char_concat(p0 + h + p1 + h + p2, h, '-', e);
    lemma_replace_char_concat(p0 + h + p1 + h + p2 + h, p3, '-', e);
    lemma_replace_char_concat(p0 + h + p1 + h + p2 + h + p3, h, '-', e);
    lemma_replace_char_concat(p0 + h + p1 + h + p2 + h + p3 + h, p4, '-', e);
    let d = p0 + p1 + p2 + p3 + p4;
    assert(uuid_digits(u) =~= d);
    assert forall|i: int| 0 <= i < 32 implies is_hex_lower(#[trigger] uuid_digits(u)[i]) by {
        if i < 8 {
            assert(d[i] == u[i]);
        } else if i < 12 {
            assert(d[i] == u[i + 1]);
        } else if i < 16 {
            assert(d[i] == u[i + 2]);
        } else if i < 20 {
            assert(d[i] == u[i + 3]);
        } else {
            assert(d[i] == u[i + 4]);
        }
    }
    assert(d[12] == u[14]);
    assert(d[16] == u[19]);
}

proof fn lemma_block_offset(n: int, i: int)
    requires
        n % 32 == 0,
        0 <= n <= i < n + 32,
    ensures
        i % 32 == i - n,
{
    assert(i % 32 == i - n) by (nonlinear_arith)
        requires
            n % 32 == 0,
            0 <= n <= i < n + 32,
    ;
}

/// The shape of a random identifier of `length` characters: lowercase
/// hexadecimal digits, made of the digits of version-4 UUIDs one after the
/// other, so that within each block of 32 the digit at offset 12 is `4` and
/// the one at offset 16 is `8`, `9`, `a` or `b`.
pub open spec fn random_id_shape(id: Seq<char>, length: nat) -> bool {
    &&& id.len() == length
    &&& forall|i: int| 0 <= i < length ==> is_hex_lower(#[trigger] id[i])
    &&& forall|i: int| 0 <= i < length && i % 32 == 12 ==> #[trigger] id[i] == '4'
    &&& forall|i: int|
        0 <= i < length && i % 32 == 16 ==> (#[trigger] id[i] == '8' || id[i] == '9' || id[i]
            == 'a' || id[i] == 'b')
}

/// A random identifier is ASCII, so it has as many bytes as characters.
pub proof fn lemma_random_id_bytes(id: Seq<char>, length: nat)
    requires
        random_id_shape(id, length),
    ensures
        encode_utf8(id).len() == length,
{
    assert forall|i: int| 0 <= i < id.len() implies '\0' <= #[trigger] id[i] <= '\u{7f}' by {
        assert(is_hex_lower(id[i]));
    }
    assert(is_ascii_chars(id));
    is_ascii_chars_encode_utf8(id);
}

/// The digits of several UUIDs' texts, without their hyphens, one after the
/// other.
pub open spec fn uuids_digits(us: Seq<Seq<char>>) -> Seq<char>
    decreases us.len(),
{
    if us.len() == 0 {
        Seq::empty()
    } else {
        uuids_digits(us.drop_last()) + uuid_digits(us.last())
    }
}

/// The identifier that a sequence of version-4 UUIDs gives: their digits
/// one after the other, cut to `length`.
pub fn random_id_from_uuids(uuids: &Vec<String>, length: usize) -> (id: String)
    requires
        forall|i: int| 0 <= i < uuids.len() ==> uuid_v4_shape(#[trigger] uuids[i]@),
        length <= 32 * uuids.len(),
    ensures
        id@ == uuids_digits(uuids.deep_view()).take(length as int),
        random_id_shape(id@, length as nat),
{
    let ghost us = uuids.deep_view();
    let mut digits: Vec<char> = Vec::new();
    let mut c: usize = 0;
    assert(us.take(0) == Seq::<Seq<char>>::empty());
    while c < uuids.len()
        invariant
            c <= uuids.len(),
            us == uuids.deep_view(),
            forall|i: int| 0 <= i < uuids.len() ==> uuid_v4_shape(#[trigger] uuids[i]@),
            digits.len() == 32 * c,
            digits@ == uuids_digits(us.take(c as int)),
            random_id_shape(digits@, digits.len() as nat),
        decreases uuids.len() - c,
    {
        let n: usize = digits.len();
        let u = &uuids[c];
        assert(us[c as int] == u@);
        assert(us.take(c + 1).drop_last() == us.take(c as int));
        assert(us.take(c + 1).last() == u@);
        let nothing: Vec<char> = Vec::new();
        let block = replace_char_chars(&chars_of(u.as_str()), '-', &nothing);
        proof {
            lemma_uuid_digits(u@);
        }
        assert(block@ == uuid_digits(u@));
        let ghost before = digits@;
        let mut k: usize = 0;
        while k < 32
            invariant
                k <= 32,
                block@ == uuid_digits(u@),
                uuid_digits(u@).len() == 32,
                digits@ == before + block@.take(k as int),
                before.len() == n,
            decreases 32 - k,
        {
            digits.push(block[k]);
            k = k + 1;
            assert(block@.take(k as int) == block@.take(k - 1).push(block@[k - 1]));
        }
        assert(block@.take(32) == block@);
        assert forall|i: int| 0 <= i < n + 32 implies digits@[i] == if i < n {
            before[i]
        } else {
            block@[i - n]
        } by {}
        assert forall|i: int| 0 <= i < n + 32 implies is_hex_lower(#[trigger] digits@[i]) by {
            if i >= n {
                assert(is_hex_lower(uuid_digits(u@)[i - n]));
            }
        }
        assert forall|i: int| 0 <= i < n + 32 && i % 32 == 12 implies #[trigger] digits@[i]
            == '4' by {
            if i >= n {
                lemma_block_offset(n as int, i);
            }
        }
        assert forall|i: int| 0 <= i < n + 32 && i % 32 == 16 implies (#[trigger] digits@[i]
            == '8' || digits@[i] == '9' || digits@[i] == 'a' || digits@[i] == 'b') by {
            if i >= n {
                lemma_block_offset(n as int, i);
            }
        }
        c = c + 1;
    }
    assert(us.take(uuids.len() as int) == us);
    let cut = slice_chars(&digits, 0, length);
    string_of(&cut)
}

/// A random identifier of `length` lowercase hexadecimal characters: as many
/// fresh version-4 UUIDs are drawn as it takes to reach `length` digits, and
/// their digits are cut to `length` (see `random_id_from_uuids`).
pub fn generate_random_id(length: usize) -> (id: String)
    requires
        length <= usize::MAX - 32,
    ensures
        random_id_shape(id@, length as nat),
{
    let mut uuids: Vec<String> = Vec::new();
    let mut n: usize = 0;
    while n < length
        invariant
            n == 32 * uuids.len(),
            n < length + 32,
            length <= usize::MAX - 32,
            forall|i: int| 0 <= i < uuids.len() ==> uuid_v4_shape(#[trigger] uuids[i]@),
        decreases length + 32 - n,
    {
        let u = uuid_v4_text();
        uuids.push(u);
        n = n + 32;
    }
    random_id_from_uuids(&uuids, length)
}


/// The characters a random token is drawn from.
pub const RANDOM_CHARACTERS: &'static str = "ABCDEFGHIJKLMNOPQRSTUVWXYZabcdefghijklmnopqrstuvwxyz0123456789/*-+.&#=_";

/// The pieces that splitting `s` at the empty pattern gives (`str::split("")`):
/// an empty piece, then each character alone, then another empty piece.
pub open spec fn empty_split_pieces(s: Seq<char>) -> Seq<Seq<char>> {
    seq![Seq::<char>::empty()] + s.map_values(|c: char| seq![c]) + seq![Seq::<char>::empty()]
}

/// What one draw `d` adds to a random token: the piece at position `d` of
/// the characters split at the empty pattern, or a comma past the last piece.
pub open spec fn drawn_piece(d: int) -> Seq<char> {
    let pieces = empty_split_pieces(RANDOM_CHARACTERS@);
    if 0 <= d < pieces.len() {
        pieces[d]
    } else {
        ","@
    }
}

/// The token that a sequence of draws gives: their pieces one after the
/// other.
pub open spec fn drawn_text(draws: Seq<usize>) -> Seq<char>
    decreases draws.len(),
{
    if draws.len() == 0 {
        Seq::empty()
    } else {
        drawn_text(draws.drop_last()) + drawn_piece(draws.last() as int)
    }
}

/// Builds a random token from draws, each draw being a position among the
/// pieces of `RANDOM_CHARACTERS` split at the empty pattern. A draw of 0
/// (the leading empty piece) adds nothing, so the token may come out shorter
/// than the number of draws.
pub fn random_str_from_draws(draws: &Vec<usize>) -> (text: String)
    ensures
        text@ == drawn_text(draws@),
{
    let chars = chars_of(RANDOM_CHARACTERS);
    let ghost pieces = empty_split_pieces(RANDOM_CHARACTERS@);
    proof {
        reveal_strlit(",");
    }
    assert(pieces.len() == chars.len() + 2);
    assert(pieces[0] == Seq::<char>::empty());
    assert(pieces[chars.len() + 1] == Seq::<char>::empty());
    assert forall|k: int| 1 <= k <= chars.len() implies pieces[k] == seq![chars@[k - 1]] by {}
    let mut text = String::new();
    let mut i: usize = 0;
    assert(draws@.take(0) == Seq::<usize>::empty());
    while i < draws.len()
        invariant
            i <= draws.len(),
            chars@ == RANDOM_CHARACTERS@,
            pieces == empty_split_pieces(RANDOM_CHARACTERS@),
            pieces.len() == chars.len() + 2,
            pieces[0] == Seq::<char>::empty(),
            pieces[chars.len() + 1] == Seq::<char>::empty(),
            forall|k: int| 1 <= k <= chars.len() ==> pieces[k] == seq![chars@[k - 1]],
            ","@ == seq![','],
            text@ == drawn_text(draws@.take(i as int)),
        decreases draws.len() - i,
    {
        assert(draws@.take(i + 1).drop_last() == draws@.take(i as int));
        assert(draws@.take(i + 1).last() == draws@[i as int]);
        let d = draws[i];
        if d == 0 || d - 1 == chars.len() {
            assert(text@ + Seq::<char>::empty() == text@);
        } else if d - 1 < chars.len() {
            push_char(&mut text, chars[d - 1]);
        } else {
            push_char(&mut text, ',');
        }
        i = i + 1;
    }
    assert(draws@.take(draws.len() as int) == draws@);
    text
}

} // verus!
