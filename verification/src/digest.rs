//! Poll identifiers and vote keys: SHA-256 digests and their hex text.

use sha2::Digest;
use vstd::prelude::*;
use vstd::string::StringExecFns;
use vstd::utf8::encode_utf8;

verus! {

/// The SHA-256 digest of a byte string, as the `sha2` crate computes it.
pub uninterp spec fn sha256(data: Seq<u8>) -> Seq<u8>;

/// Feeds `data` to a fresh `sha2::Sha256` hasher (`new`, `update`, `finalize`).
///
/// Trusted: the result is the digest named by [`sha256`], and it is 32 bytes
/// long, the output size of SHA-256.
#[verifier::external_body]
pub(crate) fn sha256_digest(data: &Vec<u8>) -> (digest: Vec<u8>)
    ensures
        digest@ == sha256(data@),
        digest@.len() == 32,
{
    let mut hasher = sha2::Sha256::new();
    hasher.update(data.as_slice());
    hasher.finalize().to_vec()
}

/// The lowercase hexadecimal digit for a value below sixteen.
pub open spec fn hex_digit(nibble: int) -> char {
    seq!['0', '1', '2', '3', '4', '5', '6', '7', '8', '9', 'a', 'b', 'c', 'd', 'e', 'f'][nibble]
}

/// Lowercase hex text of a byte string: two digits per byte, high nibble first.
pub open spec fn hex_string(bytes: Seq<u8>) -> Seq<char> {
    Seq::new(
        2 * bytes.len(),
        |i: int|
            if i % 2 == 0 {
                hex_digit(bytes[i / 2] as int / 16)
            } else {
                hex_digit(bytes[i / 2] as int % 16)
            },
    )
}

/// Calls `hex::encode` on `bytes`.
///
/// Trusted: the result is the lowercase hex text of `bytes`, two digits per
/// byte with the high nibble first, as [`hex_string`] spells out.
#[verifier::external_body]
pub(crate) fn hex_encode(bytes: &Vec<u8>) -> (text: String)
    ensures
        text@ == hex_string(bytes@),
{
    hex::encode(bytes)
}

/// Whether `c` is one of `0`-`9` or `a`-`f`.
pub open spec fn is_lower_hex(c: char) -> bool {
    ('0' <= c && c <= '9') || ('a' <= c && c <= 'f')
}

/// The views of a sequence of strings.
pub open spec fn texts(strings: Seq<String>) -> Seq<Seq<char>> {
    strings.map_values(|s: String| s@)
}

/// What is hashed for a poll: the title's UTF-8 bytes followed by those of
/// each option in order, with nothing in between.
pub open spec fn poll_id_preimage(title: Seq<char>, options: Seq<Seq<char>>) -> Seq<u8>
    decreases options.len(),
{
    if options.len() == 0 {
        encode_utf8(title)
    } else {
        poll_id_preimage(title, options.drop_last()) + encode_utf8(options.last())
    }
}

/// The identifier of the poll with this title and these options.
pub open spec fn poll_id_of(title: Seq<char>, options: Seq<Seq<char>>) -> Seq<char> {
    hex_string(sha256(poll_id_preimage(title, options)))
}

/// The storage key of the vote that `voter` cast on `poll_id`.
pub open spec fn vote_key_of(poll_id: Seq<char>, voter: Seq<u8>) -> Seq<char> {
    poll_id + seq!['_'] + hex_string(voter)
}

/// Every character of a hex text is a lowercase hex digit.
pub proof fn lemma_hex_string_is_lower_hex(bytes: Seq<u8>)
    ensures
        hex_string(bytes).len() == 2 * bytes.len(),
        forall|i: int| 0 <= i < hex_string(bytes).len() ==> is_lower_hex(#[trigger] hex_string(bytes)[i]),
{
    assert forall|i: int| 0 <= i < hex_string(bytes).len() implies is_lower_hex(
        #[trigger] hex_string(bytes)[i],
    ) by {
        lemma_hex_digit_is_lower_hex(bytes[i / 2] as int / 16);
        lemma_hex_digit_is_lower_hex(bytes[i / 2] as int % 16);
    }
}

proof fn lemma_hex_digit_is_lower_hex(nibble: int)
    requires
        0 <= nibble < 16,
    ensures
        is_lower_hex(hex_digit(nibble)),
        hex_digit(nibble) != '_',
{
}

proof fn lemma_hex_digit_injective(a: int, b: int)
    requires
        0 <= a < 16,
        0 <= b < 16,
        hex_digit(a) == hex_digit(b),
    ensures
        a == b,
{
}

/// Distinct byte strings have distinct hex texts.
pub proof fn lemma_hex_string_injective(a: Seq<u8>, b: Seq<u8>)
    requires
        hex_string(a) == hex_string(b),
    ensures
        a == b,
{
    assert(hex_string(a).len() == 2 * a.len());
    assert(hex_string(b).len() == 2 * b.len());
    assert forall|i: int| 0 <= i < a.len() implies a[i] == b[i] by {
        let high: char = hex_string(a)[2 * i];
        let low: char = hex_string(a)[2 * i + 1];
        assert(high == hex_string(b)[2 * i]);
        assert(low == hex_string(b)[2 * i + 1]);
        assert((2 * i) / 2 == i && (2 * i) % 2 == 0);
        assert((2 * i + 1) / 2 == i && (2 * i + 1) % 2 == 1);
        lemma_hex_digit_injective(a[i] as int / 16, b[i] as int / 16);
        lemma_hex_digit_injective(a[i] as int % 16, b[i] as int % 16);
    }
    assert(a =~= b);
}

/// Two polls have the same identifier exactly when the SHA-256 digests of
/// what is hashed for them are equal. In particular the identifier depends
/// on nothing but the title and the options.
pub proof fn lemma_poll_id_equal_iff_digest_equal(
    title: Seq<char>,
    options: Seq<Seq<char>>,
    other_title: Seq<char>,
    other_options: Seq<Seq<char>>,
)
    ensures
        poll_id_of(title, options) == poll_id_of(other_title, other_options) <==> sha256(
            poll_id_preimage(title, options),
        ) == sha256(poll_id_preimage(other_title, other_options)),
{
    if poll_id_of(title, options) == poll_id_of(other_title, other_options) {
        lemma_hex_string_injective(
            sha256(poll_id_preimage(title, options)),
            sha256(poll_id_preimage(other_title, other_options)),
        );
    }
}

/// A vote key names one poll and one voter: two keys are equal only if both
/// the poll identifiers and the voters are.
pub proof fn lemma_vote_key_injective(p: Seq<char>, a: Seq<u8>, q: Seq<char>, b: Seq<u8>)
    requires
        vote_key_of(p, a) == vote_key_of(q, b),
    ensures
        p == q,
        a == b,
{
    let key = vote_key_of(p, a);
    lemma_hex_string_is_lower_hex(a);
    lemma_hex_string_is_lower_hex(b);
    assert(key.len() == p.len() + 1 + 2 * a.len());
    assert(vote_key_of(q, b).len() == q.len() + 1 + 2 * b.len());
    assert(key[p.len() as int] == '_');
    assert(vote_key_of(q, b)[q.len() as int] == '_');
    if p.len() < q.len() {
        let at: int = q.len() - p.len() - 1;
        assert(key[q.len() as int] == hex_string(a)[at]);
        assert(is_lower_hex(hex_string(a)[at]));
    } else if q.len() < p.len() {
        let at: int = p.len() - q.len() - 1;
        assert(vote_key_of(q, b)[p.len() as int] == hex_string(b)[at]);
        assert(is_lower_hex(hex_string(b)[at]));
    }
    assert(p.len() == q.len());
    assert(p =~= key.subrange(0, p.len() as int));
    assert(q =~= vote_key_of(q, b).subrange(0, q.len() as int));
    assert(hex_string(a) =~= key.subrange(p.len() as int + 1, key.len() as int));
    assert(hex_string(b) =~= vote_key_of(q, b).subrange(q.len() as int + 1, key.len() as int));
    lemma_hex_string_injective(a, b);
}

/// Derives the identifier of a poll from its title and options.
///
/// The title's bytes and then each option's bytes, in order and without
/// separators, are hashed with SHA-256; the identifier is the digest in
/// lowercase hex. It is a function of the title and the options alone and is
/// always 64 hex digits long.
pub fn generate_poll_id(title: &str, options: &[String]) -> (poll_id: String)
    ensures
        poll_id@ == poll_id_of(title@, texts(options@)),
        poll_id@.len() == 64,
        forall|i: int| 0 <= i < 64 ==> is_lower_hex(#[trigger] poll_id@[i]),
{
    let mut buffer: Vec<u8> = Vec::new();
    buffer.extend_from_slice(title.as_bytes());
    assert(buffer@ =~= encode_utf8(title@));
    assert(texts(options@).take(0) =~= Seq::<Seq<char>>::empty());
    let mut i: usize = 0;
    while i < options.len()
        invariant
            i <= options.len(),
            buffer@ == poll_id_preimage(title@, texts(options@).take(i as int)),
        decreases options.len() - i,
    {
        let ghost before = buffer@;
        buffer.extend_from_slice(options[i].as_str().as_bytes());
        proof {
            let taken = texts(options@).take(i as int + 1);
            assert(taken.drop_last() =~= texts(options@).take(i as int));
            assert(taken.last() == options@[i as int]@);
            assert(buffer@ =~= before + encode_utf8(options@[i as int]@));
        }
        i += 1;
    }
    assert(texts(options@).take(options.len() as int) =~= texts(options@));
    let digest = sha256_digest(&buffer);
    let poll_id = hex_encode(&digest);
    proof {
        lemma_hex_string_is_lower_hex(digest@);
    }
    poll_id
}

/// Composes the storage key of a vote: the poll identifier, an underscore,
/// and the voter's canonical address in lowercase hex.
pub fn vote_key(poll_id: &str, voter: &Vec<u8>) -> (key: String)
    ensures
        key@ == vote_key_of(poll_id@, voter@),
{
    let mut key = poll_id.to_owned();
    let address = hex_encode(voter);
    proof {
        reveal_strlit("_");
    }
    key.append("_");
    key.append(address.as_str());
    assert("_"@ =~= seq!['_']);
    key
}

} // verus!
