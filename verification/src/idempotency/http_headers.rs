//! Response headers and their compact binary encoding.
//!
//! A header list is stored as a 64-bit little-endian count followed by the
//! pairs in order. Each pair is the name, as UTF-8 behind a 64-bit
//! little-endian length, and then the value bytes behind a length of the same
//! form. Nothing is re-encoded as text, so a decoded list replays the stored
//! bytes exactly.

use vstd::bytes::{
    lemma_auto_spec_u64_to_from_le_bytes, spec_u64_from_le_bytes, spec_u64_to_le_bytes,
    u64_from_le_bytes, u64_to_le_bytes,
};
use vstd::prelude::*;
use vstd::slice::{slice_subrange, slice_to_vec};
use vstd::utf8::{decode_utf8, encode_utf8, valid_utf8};

verus! {

/// The mathematical form of one header.
pub type PairView = (Seq<char>, Seq<u8>);

/// One header: a name and the raw bytes of its value.
#[derive(Debug, PartialEq, Eq, PartialOrd, Ord)]
pub struct HeaderPairRecord {
    pub key: String,
    pub value: Vec<u8>,
}

impl View for HeaderPairRecord {
    type V = PairView;

    open spec fn view(&self) -> PairView {
        (self.key@, self.value@)
    }
}

impl HeaderPairRecord {
    /// Builds a header from a name and a value.
    pub fn new(key: &str, value: &[u8]) -> (pair: Self)
        ensures
            pair@ == (key@, value@),
    {
        HeaderPairRecord { key: key.to_owned(), value: slice_to_vec(value) }
    }
}

/// An ordered list of headers.
#[derive(Debug, Default, PartialEq, Eq, PartialOrd, Ord)]
pub struct Headers(pub Vec<HeaderPairRecord>);

impl View for Headers {
    type V = Seq<PairView>;

    open spec fn view(&self) -> Seq<PairView> {
        Seq::new(self.0@.len(), |i: int| self.0@[i]@)
    }
}

/// Why a byte string is not an encoded header list.
#[derive(Debug, Clone, Copy, PartialEq, Eq)]
pub enum DecodeError {
    /// The input ends before a length, or before the bytes a length announces.
    UnexpectedEnd,
    /// A header name is not well-formed UTF-8.
    InvalidUtf8,
}

/// A byte string behind its 64-bit little-endian length.
pub open spec fn encode_blob(bytes: Seq<u8>) -> Seq<u8> {
    spec_u64_to_le_bytes(bytes.len() as u64) + bytes
}

/// One header: the name as UTF-8, then the value, each behind its length.
pub open spec fn encode_pair(pair: PairView) -> Seq<u8> {
    encode_blob(encode_utf8(pair.0)) + encode_blob(pair.1)
}

/// The headers one after the other, without the count.
pub open spec fn encode_pairs(pairs: Seq<PairView>) -> Seq<u8>
    decreases pairs.len(),
{
    if pairs.len() == 0 {
        Seq::empty()
    } else {
        encode_pairs(pairs.drop_last()) + encode_pair(pairs.last())
    }
}

/// The stored form of a header list: the count, then the headers.
pub open spec fn encode_headers(pairs: Seq<PairView>) -> Seq<u8> {
    spec_u64_to_le_bytes(pairs.len() as u64) + encode_pairs(pairs)
}

/// Every length that the encoding writes fits its 64-bit prefix.
pub open spec fn encodable(pairs: Seq<PairView>) -> bool {
    &&& pairs.len() <= u64::MAX
    &&& forall|i: int|
        0 <= i < pairs.len() ==> encode_utf8((#[trigger] pairs[i]).0).len() <= u64::MAX
            && pairs[i].1.len() <= u64::MAX
}

/// Reads a length-prefixed byte string from the front of `bytes`: the string
/// and what follows it, or `None` where the input is too short.
pub open spec fn decode_blob(bytes: Seq<u8>) -> Option<(Seq<u8>, Seq<u8>)> {
    if bytes.len() < 8 {
        None
    } else {
        let n = spec_u64_from_le_bytes(bytes.take(8)) as int;
        if bytes.len() - 8 < n {
            None
        } else {
            Some((bytes.subrange(8, 8 + n), bytes.skip(8 + n)))
        }
    }
}

/// Reads one header from the front of `bytes`: the header and what follows.
pub open spec fn decode_pair(bytes: Seq<u8>) -> Result<(PairView, Seq<u8>), DecodeError> {
    match decode_blob(bytes) {
        None => Err(DecodeError::UnexpectedEnd),
        Some((name, rest)) => {
            if !valid_utf8(name) {
                Err(DecodeError::InvalidUtf8)
            } else {
                match decode_blob(rest) {
                    None => Err(DecodeError::UnexpectedEnd),
                    Some((value, tail)) => Ok(((decode_utf8(name), value), tail)),
                }
            }
        },
    }
}

/// Reads `count` headers from the front of `bytes`.
pub open spec fn decode_pairs(bytes: Seq<u8>, count: nat) -> Result<
    (Seq<PairView>, Seq<u8>),
    DecodeError,
>
    decreases count,
{
    if count == 0 {
        Ok((Seq::empty(), bytes))
    } else {
        match decode_pair(bytes) {
            Err(e) => Err(e),
            Ok((pair, rest)) => match decode_pairs(rest, (count - 1) as nat) {
                Err(e) => Err(e),
                Ok((pairs, tail)) => Ok((seq![pair] + pairs, tail)),
            },
        }
    }
}

/// Reads a header list from the front of `bytes`. Bytes after the last
/// header are not looked at.
pub open spec fn decode_headers(bytes: Seq<u8>) -> Result<Seq<PairView>, DecodeError> {
    if bytes.len() < 8 {
        Err(DecodeError::UnexpectedEnd)
    } else {
        match decode_pairs(bytes.skip(8), spec_u64_from_le_bytes(bytes.take(8)) as nat) {
            Err(e) => Err(e),
            Ok((pairs, _)) => Ok(pairs),
        }
    }
}

/// What `decode_pairs` gives once `done` has been read and `rest` is left.
pub open spec fn after_prefix(
    done: Seq<PairView>,
    rest: Result<(Seq<PairView>, Seq<u8>), DecodeError>,
) -> Result<(Seq<PairView>, Seq<u8>), DecodeError> {
    match rest {
        Err(e) => Err(e),
        Ok((pairs, tail)) => Ok((done + pairs, tail)),
    }
}

/// `String::from_utf8`: the text that a byte string holds, where the bytes
/// are well-formed UTF-8, and nothing otherwise.
#[verifier::external_body]
pub(crate) fn string_from_utf8(bytes: Vec<u8>) -> (text: Option<String>)
    ensures
        text is Some <==> valid_utf8(bytes@),
        text matches Some(s) ==> s@ == decode_utf8(bytes@),
{
    String::from_utf8(bytes).ok()
}

/// Appends `bytes` behind its length.
fn put_blob(out: &mut Vec<u8>, bytes: &[u8])
    ensures
        final(out)@ == old(out)@ + encode_blob(bytes@),
        bytes@.len() <= u64::MAX,
{
    let ghost before = out@;
    let mut prefix = u64_to_le_bytes(bytes.len() as u64);
    out.append(&mut prefix);
    out.extend_from_slice(bytes);
    assert(out@ =~= before + encode_blob(bytes@));
}

/// Reads a length-prefixed byte string that starts at `pos`.
fn take_blob(bytes: &[u8], pos: usize) -> (found: Option<(Vec<u8>, usize)>)
    requires
        pos <= bytes@.len(),
    ensures
        match found {
            None => decode_blob(bytes@.skip(pos as int)) is None,
            Some((blob, next)) => pos + 8 <= next <= bytes@.len() && decode_blob(
                bytes@.skip(pos as int),
            ) == Some((blob@, bytes@.skip(next as int))),
        },
{
    let ghost input = bytes@.skip(pos as int);
    if bytes.len() - pos < 8 {
        return None;
    }
    let n: u64 = u64_from_le_bytes(slice_subrange(bytes, pos, pos + 8));
    assert(bytes@.subrange(pos as int, pos + 8) =~= input.take(8));
    if n > (bytes.len() - pos - 8) as u64 {
        return None;
    }
    let start: usize = pos + 8;
    let end: usize = start + n as usize;
    let blob = slice_to_vec(slice_subrange(bytes, start, end));
    assert(blob@ =~= input.subrange(8, 8 + n));
    assert(bytes@.skip(end as int) =~= input.skip(8 + n));
    Some((blob, end))
}

impl Clone for HeaderPairRecord {
    fn clone(&self) -> (copy: Self)
        ensures
            copy@ == self@,
    {
        HeaderPairRecord { key: self.key.clone(), value: self.value.clone() }
    }
}

impl Clone for Headers {
    fn clone(&self) -> (copy: Self)
        ensures
            copy@ == self@,
    {
        let mut list: Vec<HeaderPairRecord> = Vec::new();
        let mut i: usize = 0;
        while i < self.0.len()
            invariant
                i <= self.0@.len(),
                list@.len() == i,
                forall|j: int| 0 <= j < i ==> (#[trigger] list@[j])@ == self.0@[j]@,
            decreases self.0@.len() - i,
        {
            list.push(self.0[i].clone());
            i += 1;
        }
        let copy = Headers(list);
        assert(copy@ =~= self@);
        copy
    }
}

impl Headers {
    /// Wraps a list of headers.
    pub fn new(inner: Vec<HeaderPairRecord>) -> (headers: Self)
        ensures
            headers.0 == inner,
    {
        Headers(inner)
    }

    /// The stored form of the list. Every length of a list that is held in
    /// memory fits the encoding.
    pub fn to_bytes(&self) -> (bytes: Vec<u8>)
        ensures
            bytes@ == encode_headers(self@),
            encodable(self@),
    {
        let mut out = u64_to_le_bytes(self.0.len() as u64);
        let mut i: usize = 0;
        while i < self.0.len()
            invariant
                i <= self.0@.len(),
                out@ == spec_u64_to_le_bytes(self@.len() as u64) + encode_pairs(
                    self@.take(i as int),
                ),
                forall|j: int|
                    0 <= j < i ==> encode_utf8((#[trigger] self@[j]).0).len() <= u64::MAX
                        && self@[j].1.len() <= u64::MAX,
            decreases self.0@.len() - i,
        {
            let ghost before = out@;
            let pair = &self.0[i];
            put_blob(&mut out, pair.key.as_str().as_bytes());
            put_blob(&mut out, pair.value.as_slice());
            proof {
                let done = self@.take(i + 1);
                assert(done.drop_last() =~= self@.take(i as int));
                assert(done.last() == pair@);
                assert(out@ =~= spec_u64_to_le_bytes(self@.len() as u64) + encode_pairs(done));
            }
            i += 1;
        }
        assert(self@.take(i as int) =~= self@);
        out
    }

    /// Reads a list from its stored form. Bytes after the last header are
    /// not looked at.
    pub fn try_from_bytes(bytes: &[u8]) -> (decoded: Result<Self, DecodeError>)
        ensures
            match decoded {
                Ok(headers) => decode_headers(bytes@) == Ok::<Seq<PairView>, DecodeError>(
                    headers@,
                ),
                Err(e) => decode_headers(bytes@) == Err::<Seq<PairView>, DecodeError>(e),
            },
    {
        if bytes.len() < 8 {
            return Err(DecodeError::UnexpectedEnd);
        }
        let count: u64 = u64_from_le_bytes(slice_subrange(bytes, 0, 8));
        assert(bytes@.subrange(0, 8) =~= bytes@.take(8));
        let ghost whole = decode_pairs(bytes@.skip(8), count as nat);
        let mut list: Vec<HeaderPairRecord> = Vec::new();
        let mut pos: usize = 8;
        let mut left: u64 = count;
        while left > 0
            invariant
                8 <= pos <= bytes@.len(),
                left <= count,
                count == spec_u64_from_le_bytes(bytes@.take(8)),
                whole == decode_pairs(bytes@.skip(8), count as nat),
                whole == after_prefix(
                    Headers(list)@,
                    decode_pairs(bytes@.skip(pos as int), left as nat),
                ),
            decreases left,
        {
            let ghost done = Headers(list)@;
            let ghost input = bytes@.skip(pos as int);
            let (name, after_name) = match take_blob(bytes, pos) {
                None => { return Err(DecodeError::UnexpectedEnd); },
                Some(found) => found,
            };
            let ghost name_bytes = name@;
            let key = match string_from_utf8(name) {
                None => { return Err(DecodeError::InvalidUtf8); },
                Some(key) => key,
            };
            let (value, after_value) = match take_blob(bytes, after_name) {
                None => { return Err(DecodeError::UnexpectedEnd); },
                Some(found) => found,
            };
            let pair = HeaderPairRecord { key, value };
            assert(decode_pair(input) == Ok::<(PairView, Seq<u8>), DecodeError>(
                (pair@, bytes@.skip(after_value as int)),
            ));
            list.push(pair);
            proof {
                let tail = decode_pairs(bytes@.skip(after_value as int), (left - 1) as nat);
                assert(Headers(list)@ =~= done + seq![pair@]);
                if let Ok((pairs, end)) = tail {
                    assert(done + (seq![pair@] + pairs) =~= Headers(list)@ + pairs);
                }
            }
            pos = after_value;
            left = left - 1;
        }
        assert(Headers(list)@ + Seq::<PairView>::empty() =~= Headers(list)@);
        Ok(Headers(list))
    }

    /// Reads a list from its stored form, for bytes known to hold one.
    pub fn from_bytes(bytes: &[u8]) -> (headers: Self)
        requires
            decode_headers(bytes@) is Ok,
        ensures
            decode_headers(bytes@) == Ok::<Seq<PairView>, DecodeError>(headers@),
    {
        match Self::try_from_bytes(bytes) {
            Ok(headers) => headers,
            Err(_) => {
                assert(false);
                Headers(Vec::new())
            },
        }
    }
}

/// A length-prefixed byte string is read back whole, whatever follows it.
pub proof fn lemma_decode_blob_of_encode(bytes: Seq<u8>, tail: Seq<u8>)
    requires
        bytes.len() <= u64::MAX,
    ensures
        decode_blob(encode_blob(bytes) + tail) == Some((bytes, tail)),
{
    lemma_auto_spec_u64_to_from_le_bytes();
    let prefix = spec_u64_to_le_bytes(bytes.len() as u64);
    let input = encode_blob(bytes) + tail;
    assert(input.take(8) =~= prefix);
    assert(input.subrange(8, 8 + bytes.len() as int) =~= bytes);
    assert(input.skip(8 + bytes.len() as int) =~= tail);
}

/// What is read as a length-prefixed byte string stands, encoded, at the
/// front of the input.
pub proof fn lemma_encode_blob_of_decode(input: Seq<u8>)
    requires
        decode_blob(input) is Some,
    ensures
        ({
            let (blob, rest) = decode_blob(input).unwrap();
            blob.len() <= u64::MAX && input == encode_blob(blob) + rest
        }),
{
    lemma_auto_spec_u64_to_from_le_bytes();
    let n = spec_u64_from_le_bytes(input.take(8));
    let (blob, rest) = decode_blob(input).unwrap();
    assert(spec_u64_to_le_bytes(n) == input.take(8));
    assert(input =~= input.take(8) + blob + rest);
}

/// One encoded header is read back as it was, whatever follows it.
pub proof fn lemma_decode_pair_of_encode(pair: PairView, tail: Seq<u8>)
    requires
        encode_utf8(pair.0).len() <= u64::MAX,
        pair.1.len() <= u64::MAX,
    ensures
        decode_pair(encode_pair(pair) + tail) == Ok::<(PairView, Seq<u8>), DecodeError>(
            (pair, tail),
        ),
{
    let name = encode_utf8(pair.0);
    vstd::utf8::encode_utf8_valid_utf8(pair.0);
    vstd::utf8::encode_utf8_decode_utf8(pair.0);
    let rest = encode_blob(pair.1) + tail;
    assert(encode_pair(pair) + tail =~= encode_blob(name) + rest);
    lemma_decode_blob_of_encode(name, rest);
    lemma_decode_blob_of_encode(pair.1, tail);
}

/// The encoding of a list is the encoding of its first header followed by
/// the encoding of the others.
pub proof fn lemma_encode_pairs_first(pairs: Seq<PairView>)
    requires
        pairs.len() > 0,
    ensures
        encode_pairs(pairs) == encode_pair(pairs.first()) + encode_pairs(pairs.drop_first()),
    decreases pairs.len(),
{
    if pairs.len() == 1 {
        assert(pairs.drop_last() =~= Seq::<PairView>::empty());
        assert(pairs.drop_first() =~= Seq::<PairView>::empty());
        assert(encode_pairs(pairs) =~= encode_pair(pairs.first()) + encode_pairs(
            pairs.drop_first(),
        ));
    } else {
        let front = pairs.drop_last();
        lemma_encode_pairs_first(front);
        assert(front.first() == pairs.first());
        assert(front.drop_first() =~= pairs.drop_first().drop_last());
        assert(pairs.drop_first().last() == pairs.last());
        assert(encode_pairs(pairs) =~= encode_pair(pairs.first()) + encode_pairs(
            pairs.drop_first(),
        ));
    }
}

/// Encoded headers are read back in order, whatever follows them.
pub proof fn lemma_decode_pairs_of_encode(pairs: Seq<PairView>, tail: Seq<u8>)
    requires
        encodable(pairs),
    ensures
        decode_pairs(encode_pairs(pairs) + tail, pairs.len()) == Ok::<
            (Seq<PairView>, Seq<u8>),
            DecodeError,
        >((pairs, tail)),
    decreases pairs.len(),
{
    if pairs.len() == 0 {
        assert(encode_pairs(pairs) + tail =~= tail);
        assert(pairs =~= Seq::<PairView>::empty());
    } else {
        let first = pairs.first();
        let others = pairs.drop_first();
        lemma_encode_pairs_first(pairs);
        assert(forall|i: int| 0 <= i < others.len() ==> others[i] == pairs[i + 1]);
        let rest = encode_pairs(others) + tail;
        assert(encode_pairs(pairs) + tail =~= encode_pair(first) + rest);
        lemma_decode_pair_of_encode(first, rest);
        lemma_decode_pairs_of_encode(others, tail);
        assert(seq![first] + others =~= pairs);
    }
}

/// Decoding undoes encoding: the stored form of a list, with anything behind
/// it, is read back as that list.
pub proof fn lemma_decode_of_encode(pairs: Seq<PairView>, tail: Seq<u8>)
    requires
        encodable(pairs),
    ensures
        decode_headers(encode_headers(pairs) + tail) == Ok::<Seq<PairView>, DecodeError>(pairs),
{
    lemma_auto_spec_u64_to_from_le_bytes();
    let input = encode_headers(pairs) + tail;
    assert(input.take(8) =~= spec_u64_to_le_bytes(pairs.len() as u64));
    assert(input.skip(8) =~= encode_pairs(pairs) + tail);
    lemma_decode_pairs_of_encode(pairs, tail);
}

/// What `decode_pairs` reads stands, encoded, at the front of its input.
pub proof fn lemma_encode_pairs_of_decode(input: Seq<u8>, count: nat)
    requires
        decode_pairs(input, count) is Ok,
    ensures
        ({
            let (pairs, tail) = decode_pairs(input, count)->Ok_0;
            &&& pairs.len() == count
            &&& forall|i: int|
                0 <= i < pairs.len() ==> encode_utf8((#[trigger] pairs[i]).0).len() <= u64::MAX
                    && pairs[i].1.len() <= u64::MAX
            &&& input == encode_pairs(pairs) + tail
        }),
    decreases count,
{
    let (pairs, tail) = decode_pairs(input, count)->Ok_0;
    if count == 0 {
        assert(input =~= encode_pairs(pairs) + tail);
    } else {
        let (pair, rest) = decode_pair(input)->Ok_0;
        let (name, after_name) = decode_blob(input).unwrap();
        let (value, after_value) = decode_blob(after_name).unwrap();
        lemma_encode_blob_of_decode(input);
        lemma_encode_blob_of_decode(after_name);
        vstd::utf8::decode_utf8_encode_utf8(name);
        assert(input =~= encode_pair(pair) + rest);
        lemma_encode_pairs_of_decode(rest, (count - 1) as nat);
        let (others, end) = decode_pairs(rest, (count - 1) as nat)->Ok_0;
        assert(pairs == seq![pair] + others);
        assert(pairs.first() == pair);
        assert(pairs.drop_first() =~= others);
        lemma_encode_pairs_first(pairs);
        assert(input =~= encode_pairs(pairs) + tail);
        assert forall|i: int| 0 <= i < pairs.len() implies encode_utf8(
            (#[trigger] pairs[i]).0,
        ).len() <= u64::MAX && pairs[i].1.len() <= u64::MAX by {
            if i > 0 {
                assert(pairs[i] == others[i - 1]);
            }
        }
    }
}

/// Decoding accepts nothing but encodings: a list is read from a byte string
/// only where the list's stored form stands at the front of that string.
pub proof fn lemma_encode_of_decode(input: Seq<u8>)
    requires
        decode_headers(input) is Ok,
    ensures
        encodable(decode_headers(input)->Ok_0),
        encode_headers(decode_headers(input)->Ok_0).len() <= input.len(),
        input.take(encode_headers(decode_headers(input)->Ok_0).len() as int) == encode_headers(
            decode_headers(input)->Ok_0,
        ),
{
    lemma_auto_spec_u64_to_from_le_bytes();
    let count = spec_u64_from_le_bytes(input.take(8));
    lemma_encode_pairs_of_decode(input.skip(8), count as nat);
    let (pairs, tail) = decode_pairs(input.skip(8), count as nat)->Ok_0;
    assert(spec_u64_to_le_bytes(count) == input.take(8));
    assert(input =~= input.take(8) + input.skip(8));
    assert(input =~= encode_headers(pairs) + tail);
    assert(input.take(encode_headers(pairs).len() as int) =~= encode_headers(pairs));
}

} // verus!
