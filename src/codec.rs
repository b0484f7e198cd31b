use vstd::prelude::*;
use vstd::utf8::valid_utf8;

use crate::error::ErrorCode;

verus! {

/// Separator between the `key:value` entries of a relay message.
pub const COMMA: u8 = 44;

/// Separator between the key and the value of one entry.
pub const COLON: u8 = 58;

/// `chain`
pub open spec fn key_chain() -> Seq<u8> {
    seq![99u8, 104, 97, 105, 110]
}

/// `token_id`
pub open spec fn key_token_id() -> Seq<u8> {
    seq![116u8, 111, 107, 101, 110, 95, 105, 100]
}

/// `uri`
pub open spec fn key_uri() -> Seq<u8> {
    seq![117u8, 114, 105]
}

/// `name`
pub open spec fn key_name() -> Seq<u8> {
    seq![110u8, 97, 109, 101]
}

/// `symbol`
pub open spec fn key_symbol() -> Seq<u8> {
    seq![115u8, 121, 109, 98, 111, 108]
}

/// `UniversalNFT`, the name announced for every asset sent through the relay.
pub open spec fn relay_name() -> Seq<u8> {
    seq![85u8, 110, 105, 118, 101, 114, 115, 97, 108, 78, 70, 84]
}

/// `UNFT`, the symbol announced for every asset sent through the relay.
pub open spec fn relay_symbol() -> Seq<u8> {
    seq![85u8, 78, 70, 84]
}

/// `0x`, the prefix of a remote address written in hex.
pub open spec fn hex_prefix() -> Seq<u8> {
    seq![48u8, 120]
}

/// The lowercase hex digit for a value below sixteen.
pub open spec fn hex_digit(n: u8) -> u8 {
    if n < 10 {
        (48 + n) as u8
    } else {
        (87 + n) as u8
    }
}

/// Two lowercase hex digits per byte, the high nibble first.
pub open spec fn hex_of(s: Seq<u8>) -> Seq<u8>
    decreases s.len(),
{
    if s.len() == 0 {
        Seq::empty()
    } else {
        hex_of(s.drop_last()) + seq![hex_digit(s.last() / 16), hex_digit(s.last() % 16)]
    }
}

/// The pieces of `s` between separators, as `str::split` yields them: one more
/// piece than there are separators, empty pieces included.
pub open spec fn split_bytes(s: Seq<u8>, sep: u8) -> Seq<Seq<u8>>
    decreases s.len(),
{
    if s.len() == 0 {
        seq![Seq::empty()]
    } else {
        let prev = split_bytes(s.drop_last(), sep);
        if s.last() == sep {
            prev.push(Seq::empty())
        } else {
            prev.update(prev.len() - 1, prev.last().push(s.last()))
        }
    }
}

/// An entry split at its first colon into key and value; `None` without a colon.
pub open spec fn key_value(seg: Seq<u8>) -> Option<(Seq<u8>, Seq<u8>)>
    decreases seg.len(),
{
    if seg.len() == 0 {
        None
    } else if seg[0] == COLON {
        Some((Seq::empty(), seg.drop_first()))
    } else {
        match key_value(seg.drop_first()) {
            Some(kv) => Some((seq![seg[0]] + kv.0, kv.1)),
            None => None,
        }
    }
}

/// The value that entry `seg` gives to `key`, or `prev` where it says nothing of it.
pub open spec fn entry_update(prev: Seq<u8>, seg: Seq<u8>, key: Seq<u8>) -> Seq<u8> {
    match key_value(seg) {
        Some(kv) => if kv.0 == key {
            kv.1
        } else {
            prev
        },
        None => prev,
    }
}

/// The value of `key` in a list of entries: the last entry with that key wins,
/// and a key that no entry names is empty.
pub open spec fn field_value(segs: Seq<Seq<u8>>, key: Seq<u8>) -> Seq<u8>
    decreases segs.len(),
{
    if segs.len() == 0 {
        Seq::empty()
    } else {
        entry_update(field_value(segs.drop_last(), key), segs.last(), key)
    }
}

/// The value of `key` in a relay message.
pub open spec fn payload_field(data: Seq<u8>, key: Seq<u8>) -> Seq<u8> {
    field_value(split_bytes(data, COMMA), key)
}

/// A message can be decoded when it is UTF-8 and names a chain and a token.
pub open spec fn payload_decodes(data: Seq<u8>) -> bool {
    &&& valid_utf8(data)
    &&& payload_field(data, key_chain()).len() > 0
    &&& payload_field(data, key_token_id()).len() > 0
}

/// One `key:value` entry.
pub open spec fn entry(key: Seq<u8>, value: Seq<u8>) -> Seq<u8> {
    key + seq![COLON] + value
}

/// The relay message that describes an asset.
pub open spec fn payload_bytes(
    chain: Seq<u8>,
    token_id: Seq<u8>,
    uri: Seq<u8>,
    name: Seq<u8>,
    symbol: Seq<u8>,
) -> Seq<u8> {
    entry(key_chain(), chain) + seq![COMMA] + entry(key_token_id(), token_id) + seq![COMMA]
        + entry(key_uri(), uri) + seq![COMMA] + entry(key_name(), name) + seq![COMMA] + entry(
        key_symbol(),
        symbol,
    )
}

/// What a relay message says of the asset it carries.
#[derive(Debug)]
pub struct CrossChainNftData {
    pub original_chain: Vec<u8>,
    pub token_id: Vec<u8>,
    pub metadata_uri: Vec<u8>,
    pub name: Vec<u8>,
    pub symbol: Vec<u8>,
}

/// Relies on hex::encode: two lowercase hex digits for each byte, the high
/// nibble first.
#[verifier::external_body]
fn hex_encode(bytes: &[u8; 20]) -> (r: Vec<u8>)
    ensures
        r@ == hex_of(bytes@),
{
    hex::encode(bytes).into_bytes()
}

/// Relies on std::str::from_utf8: it accepts exactly the well-formed UTF-8
/// byte strings.
#[verifier::external_body]
fn is_utf8(bytes: &[u8]) -> (r: bool)
    ensures
        r == valid_utf8(bytes@),
{
    std::str::from_utf8(bytes).is_ok()
}

/// Appends `src` to `out`.
pub fn append_bytes(out: &mut Vec<u8>, src: &Vec<u8>)
    ensures
        final(out)@ == old(out)@ + src@,
{
    let mut i: usize = 0;
    while i < src.len()
        invariant
            i <= src@.len(),
            out@ == old(out)@ + src@.subrange(0, i as int),
        decreases src@.len() - i,
    {
        out.push(src[i]);
        i += 1;
        assert(out@ =~= old(out)@ + src@.subrange(0, i as int));
    }
    assert(src@.subrange(0, src@.len() as int) =~= src@);
}

/// The bytes of `data` in `[a, b)`.
pub fn copy_range(data: &Vec<u8>, a: usize, b: usize) -> (r: Vec<u8>)
    requires
        a <= b <= data@.len(),
    ensures
        r@ == data@.subrange(a as int, b as int),
{
    let mut r: Vec<u8> = Vec::new();
    let mut i: usize = a;
    while i < b
        invariant
            a <= i <= b <= data@.len(),
            r@ == data@.subrange(a as int, i as int),
        decreases b - i,
    {
        r.push(data[i]);
        i += 1;
        assert(r@ =~= data@.subrange(a as int, i as int));
    }
    r
}

/// Whether the bytes of `data` in `[a, b)` are exactly `key`.
pub fn range_eq(data: &Vec<u8>, a: usize, b: usize, key: &Vec<u8>) -> (r: bool)
    requires
        a <= b <= data@.len(),
    ensures
        r == (data@.subrange(a as int, b as int) == key@),
{
    if b - a != key.len() {
        return false;
    }
    let mut i: usize = 0;
    while i < key.len()
        invariant
            b - a == key@.len(),
            a <= b <= data@.len(),
            i <= key@.len(),
            forall|j: int| 0 <= j < i ==> data@[a + j] == key@[j],
        decreases key@.len() - i,
    {
        if data[a + i] != key[i] {
            assert(data@.subrange(a as int, b as int)[i as int] != key@[i as int]);
            return false;
        }
        i += 1;
    }
    assert(data@.subrange(a as int, b as int) =~= key@);
    true
}

fn chain_key() -> (r: Vec<u8>)
    ensures
        r@ == key_chain(),
{
    let r = vec![99u8, 104, 97, 105, 110];
    assert(r@ =~= key_chain());
    r
}

fn token_id_key() -> (r: Vec<u8>)
    ensures
        r@ == key_token_id(),
{
    let r = vec![116u8, 111, 107, 101, 110, 95, 105, 100];
    assert(r@ =~= key_token_id());
    r
}

fn uri_key() -> (r: Vec<u8>)
    ensures
        r@ == key_uri(),
{
    let r = vec![117u8, 114, 105];
    assert(r@ =~= key_uri());
    r
}

fn name_key() -> (r: Vec<u8>)
    ensures
        r@ == key_name(),
{
    let r = vec![110u8, 97, 109, 101];
    assert(r@ =~= key_name());
    r
}

fn symbol_key() -> (r: Vec<u8>)
    ensures
        r@ == key_symbol(),
{
    let r = vec![115u8, 121, 109, 98, 111, 108];
    assert(r@ =~= key_symbol());
    r
}

/// The name announced for an asset sent through the relay.
pub fn relay_name_bytes() -> (r: Vec<u8>)
    ensures
        r@ == relay_name(),
{
    let r = vec![85u8, 110, 105, 118, 101, 114, 115, 97, 108, 78, 70, 84];
    assert(r@ =~= relay_name());
    r
}

/// The symbol announced for an asset sent through the relay.
pub fn relay_symbol_bytes() -> (r: Vec<u8>)
    ensures
        r@ == relay_symbol(),
{
    let r = vec![85u8, 78, 70, 84];
    assert(r@ =~= relay_symbol());
    r
}

/// A 20-byte remote address as text: `0x` and forty lowercase hex digits.
pub fn hex_encode_20(addr: [u8; 20]) -> (r: Vec<u8>)
    ensures
        r@ == hex_prefix() + hex_of(addr@),
{
    let mut r = vec![48u8, 120];
    assert(r@ =~= hex_prefix());
    let digits = hex_encode(&addr);
    append_bytes(&mut r, &digits);
    r
}

fn push_entry(out: &mut Vec<u8>, key: &Vec<u8>, value: &Vec<u8>)
    ensures
        final(out)@ == old(out)@ + entry(key@, value@),
{
    append_bytes(out, key);
    out.push(COLON);
    append_bytes(out, value);
    assert(final(out)@ =~= old(out)@ + entry(key@, value@));
}

/// Writes the relay message that describes an asset.
pub fn encode_payload(
    chain: &Vec<u8>,
    token_id: &Vec<u8>,
    uri: &Vec<u8>,
    name: &Vec<u8>,
    symbol: &Vec<u8>,
) -> (r: Vec<u8>)
    ensures
        r@ == payload_bytes(chain@, token_id@, uri@, name@, symbol@),
{
    let mut r: Vec<u8> = Vec::new();
    push_entry(&mut r, &chain_key(), chain);
    r.push(COMMA);
    push_entry(&mut r, &token_id_key(), token_id);
    r.push(COMMA);
    push_entry(&mut r, &uri_key(), uri);
    r.push(COMMA);
    push_entry(&mut r, &name_key(), name);
    r.push(COMMA);
    push_entry(&mut r, &symbol_key(), symbol);
    assert(r@ =~= payload_bytes(chain@, token_id@, uri@, name@, symbol@));
    r
}

proof fn lemma_key_value_at(seg: Seq<u8>, c: int)
    requires
        0 <= c < seg.len(),
        seg[c] == COLON,
        forall|j: int| 0 <= j < c ==> seg[j] != COLON,
    ensures
        key_value(seg) == Some((seg.subrange(0, c), seg.subrange(c + 1, seg.len() as int))),
    decreases c,
{
    if c == 0 {
        assert(seg.subrange(0, 0) =~= Seq::<u8>::empty());
        assert(seg.drop_first() =~= seg.subrange(1, seg.len() as int));
    } else {
        let rest = seg.drop_first();
        assert forall|j: int| 0 <= j < c - 1 implies rest[j] != COLON by {
            assert(rest[j] == seg[j + 1]);
        }
        lemma_key_value_at(rest, c - 1);
        assert(seq![seg[0]] + rest.subrange(0, c - 1) =~= seg.subrange(0, c));
        assert(rest.subrange(c, rest.len() as int) =~= seg.subrange(c + 1, seg.len() as int));
    }
}

proof fn lemma_key_value_none(seg: Seq<u8>)
    requires
        forall|j: int| 0 <= j < seg.len() ==> seg[j] != COLON,
    ensures
        key_value(seg) is None,
    decreases seg.len(),
{
    if seg.len() > 0 {
        let rest = seg.drop_first();
        assert forall|j: int| 0 <= j < rest.len() implies rest[j] != COLON by {
            assert(rest[j] == seg[j + 1]);
        }
        lemma_key_value_none(rest);
    }
}

/// Applies the entry in `[a, b)` of `data` to the fields read so far.
fn apply_entry(nft: &mut CrossChainNftData, data: &Vec<u8>, a: usize, b: usize)
    requires
        a <= b <= data@.len(),
    ensures
        ({
            let seg = data@.subrange(a as int, b as int);
            &&& final(nft).original_chain@ == entry_update(
                old(nft).original_chain@,
                seg,
                key_chain(),
            )
            &&& final(nft).token_id@ == entry_update(old(nft).token_id@, seg, key_token_id())
            &&& final(nft).metadata_uri@ == entry_update(old(nft).metadata_uri@, seg, key_uri())
            &&& final(nft).name@ == entry_update(old(nft).name@, seg, key_name())
            &&& final(nft).symbol@ == entry_update(old(nft).symbol@, seg, key_symbol())
        }),
{
    let ghost seg = data@.subrange(a as int, b as int);
    let mut c: usize = a;
    while c < b && data[c] != COLON
        invariant
            a <= c <= b <= data@.len(),
            forall|j: int| a <= j < c ==> data@[j] != COLON,
        decreases b - c,
    {
        c += 1;
    }
    if c == b {
        proof {
            assert forall|j: int| 0 <= j < seg.len() implies seg[j] != COLON by {
                assert(seg[j] == data@[a + j]);
            }
            lemma_key_value_none(seg);
        }
        return;
    }
    proof {
        assert forall|j: int| 0 <= j < c - a implies seg[j] != COLON by {
            assert(seg[j] == data@[a + j]);
        }
        lemma_key_value_at(seg, c - a);
        assert(seg.subrange(0, c - a) =~= data@.subrange(a as int, c as int));
        assert(seg.subrange(c - a + 1, seg.len() as int) =~= data@.subrange(
            c + 1,
            b as int,
        ));
    }
    let value = copy_range(data, c + 1, b);
    if range_eq(data, a, c, &chain_key()) {
        nft.original_chain = value;
    } else if range_eq(data, a, c, &token_id_key()) {
        nft.token_id = value;
    } else if range_eq(data, a, c, &uri_key()) {
        nft.metadata_uri = value;
    } else if range_eq(data, a, c, &name_key()) {
        nft.name = value;
    } else if range_eq(data, a, c, &symbol_key()) {
        nft.symbol = value;
    }
    proof {
        reveal_keys_distinct();
    }
}

/// The five keys of a relay message are pairwise different.
proof fn reveal_keys_distinct()
    ensures
        key_chain() != key_token_id(),
        key_chain() != key_uri(),
        key_chain() != key_name(),
        key_chain() != key_symbol(),
        key_token_id() != key_uri(),
        key_token_id() != key_name(),
        key_token_id() != key_symbol(),
        key_uri() != key_name(),
        key_uri() != key_symbol(),
        key_name() != key_symbol(),
{
    assert(key_chain().len() != key_token_id().len());
    assert(key_chain().len() != key_uri().len());
    assert(key_chain().len() != key_name().len());
    assert(key_chain()[0] != key_symbol()[0]);
    assert(key_token_id().len() != key_uri().len());
    assert(key_token_id().len() != key_name().len());
    assert(key_token_id().len() != key_symbol().len());
    assert(key_uri().len() != key_name().len());
    assert(key_uri().len() != key_symbol().len());
    assert(key_name().len() != key_symbol().len());
}

proof fn lemma_split_nonempty(s: Seq<u8>, sep: u8)
    ensures
        split_bytes(s, sep).len() >= 1,
    decreases s.len(),
{
    if s.len() > 0 {
        lemma_split_nonempty(s.drop_last(), sep);
    }
}

/// Bytes without a separator are a single piece.
proof fn lemma_split_single(s: Seq<u8>, sep: u8)
    requires
        !s.contains(sep),
    ensures
        split_bytes(s, sep) == seq![s],
    decreases s.len(),
{
    if s.len() > 0 {
        let p = s.drop_last();
        assert(!p.contains(sep)) by {
            if p.contains(sep) {
                let i = choose|i: int| 0 <= i < p.len() && p[i] == sep;
                assert(s[i] == sep);
            }
        }
        lemma_split_single(p, sep);
        assert(s.last() != sep) by {
            assert(s[s.len() - 1] == s.last());
        }
        assert(p.push(s.last()) =~= s);
        assert(seq![p].update(0, p.push(s.last())) =~= seq![s]);
    } else {
        assert(s =~= Seq::<u8>::empty());
    }
}

/// Splitting around a separator splits each side.
proof fn lemma_split_concat(a: Seq<u8>, b: Seq<u8>, sep: u8)
    ensures
        split_bytes(a + seq![sep] + b, sep) == split_bytes(a, sep) + split_bytes(b, sep),
    decreases b.len(),
{
    let s = a + seq![sep] + b;
    if b.len() == 0 {
        assert(s.drop_last() =~= a);
        assert(split_bytes(b, sep) =~= seq![Seq::<u8>::empty()]);
        assert(split_bytes(a, sep).push(Seq::empty()) =~= split_bytes(a, sep) + seq![
            Seq::<u8>::empty(),
        ]);
    } else {
        let b0 = b.drop_last();
        lemma_split_concat(a, b0, sep);
        lemma_split_nonempty(b0, sep);
        lemma_split_nonempty(a, sep);
        assert(s.drop_last() =~= a + seq![sep] + b0);
        assert(s.last() == b.last());
        let pa = split_bytes(a, sep);
        let pb = split_bytes(b0, sep);
        if b.last() == sep {
            assert((pa + pb).push(Seq::empty()) =~= pa + pb.push(Seq::empty()));
        } else {
            let prev = pa + pb;
            assert(prev.last() == pb.last());
            assert(prev.update(prev.len() - 1, prev.last().push(b.last())) =~= pa + pb.update(
                pb.len() - 1,
                pb.last().push(b.last()),
            ));
        }
    }
}

proof fn lemma_entry_split(key: Seq<u8>, value: Seq<u8>)
    requires
        !key.contains(COLON),
        !key.contains(COMMA),
        !value.contains(COMMA),
    ensures
        key_value(entry(key, value)) == Some((key, value)),
        !entry(key, value).contains(COMMA),
{
    let e = entry(key, value);
    assert forall|j: int| 0 <= j < key.len() implies e[j] != COLON by {
        assert(e[j] == key[j]);
        if key[j] == COLON {
            assert(key.contains(COLON));
        }
    }
    lemma_key_value_at(e, key.len() as int);
    assert(e.subrange(0, key.len() as int) =~= key);
    assert(e.subrange(key.len() as int + 1, e.len() as int) =~= value);
    if e.contains(COMMA) {
        let i = choose|i: int| 0 <= i < e.len() && e[i] == COMMA;
        if i < key.len() {
            assert(key[i] == COMMA);
        } else if i > key.len() {
            assert(value[i - key.len() - 1] == COMMA);
        }
    }
}

proof fn lemma_keys_plain()
    ensures
        !key_chain().contains(COLON) && !key_chain().contains(COMMA),
        !key_token_id().contains(COLON) && !key_token_id().contains(COMMA),
        !key_uri().contains(COLON) && !key_uri().contains(COMMA),
        !key_name().contains(COLON) && !key_name().contains(COMMA),
        !key_symbol().contains(COLON) && !key_symbol().contains(COMMA),
{
    assert forall|c: u8| c == COLON || c == COMMA implies !key_chain().contains(c) && !key_token_id().contains(c)
        && !key_uri().contains(c) && !key_name().contains(c) && !key_symbol().contains(c) by {
        if key_chain().contains(c) {
            let i = choose|i: int| 0 <= i < key_chain().len() && key_chain()[i] == c;
        }
        if key_token_id().contains(c) {
            let i = choose|i: int| 0 <= i < key_token_id().len() && key_token_id()[i] == c;
        }
        if key_uri().contains(c) {
            let i = choose|i: int| 0 <= i < key_uri().len() && key_uri()[i] == c;
        }
        if key_name().contains(c) {
            let i = choose|i: int| 0 <= i < key_name().len() && key_name()[i] == c;
        }
        if key_symbol().contains(c) {
            let i = choose|i: int| 0 <= i < key_symbol().len() && key_symbol()[i] == c;
        }
    }
}

/// Decoding the message that `encode_payload` writes gives back every field,
/// provided that no field holds a comma.
pub proof fn lemma_payload_round_trip(
    chain: Seq<u8>,
    token_id: Seq<u8>,
    uri: Seq<u8>,
    name: Seq<u8>,
    symbol: Seq<u8>,
)
    requires
        !chain.contains(COMMA),
        !token_id.contains(COMMA),
        !uri.contains(COMMA),
        !name.contains(COMMA),
        !symbol.contains(COMMA),
    ensures
        ({
            let data = payload_bytes(chain, token_id, uri, name, symbol);
            &&& payload_field(data, key_chain()) == chain
            &&& payload_field(data, key_token_id()) == token_id
            &&& payload_field(data, key_uri()) == uri
            &&& payload_field(data, key_name()) == name
            &&& payload_field(data, key_symbol()) == symbol
        }),
{
    lemma_keys_plain();
    reveal_keys_distinct();
    let e1 = entry(key_chain(), chain);
    let e2 = entry(key_token_id(), token_id);
    let e3 = entry(key_uri(), uri);
    let e4 = entry(key_name(), name);
    let e5 = entry(key_symbol(), symbol);
    lemma_entry_split(key_chain(), chain);
    lemma_entry_split(key_token_id(), token_id);
    lemma_entry_split(key_uri(), uri);
    lemma_entry_split(key_name(), name);
    lemma_entry_split(key_symbol(), symbol);
    lemma_split_single(e1, COMMA);
    lemma_split_single(e2, COMMA);
    lemma_split_single(e3, COMMA);
    lemma_split_single(e4, COMMA);
    lemma_split_single(e5, COMMA);
    let a2 = e1 + seq![COMMA] + e2;
    let a3 = a2 + seq![COMMA] + e3;
    let a4 = a3 + seq![COMMA] + e4;
    let data = a4 + seq![COMMA] + e5;
    assert(data == payload_bytes(chain, token_id, uri, name, symbol));
    lemma_split_concat(e1, e2, COMMA);
    lemma_split_concat(a2, e3, COMMA);
    lemma_split_concat(a3, e4, COMMA);
    lemma_split_concat(a4, e5, COMMA);
    let segs = split_bytes(data, COMMA);
    assert(segs =~= seq![e1, e2, e3, e4, e5]);
    let s4 = segs.drop_last();
    let s3 = s4.drop_last();
    let s2 = s3.drop_last();
    let s1 = s2.drop_last();
    let s0 = s1.drop_last();
    assert(s4 =~= seq![e1, e2, e3, e4]);
    assert(s3 =~= seq![e1, e2, e3]);
    assert(s2 =~= seq![e1, e2]);
    assert(s1 =~= seq![e1]);
    assert(s0 =~= Seq::<Seq<u8>>::empty());
    assert(field_value(segs, key_chain()) == chain) by {
        reveal_with_fuel(field_value, 6);
    }
    assert(field_value(segs, key_token_id()) == token_id) by {
        reveal_with_fuel(field_value, 6);
    }
    assert(field_value(segs, key_uri()) == uri) by {
        reveal_with_fuel(field_value, 6);
    }
    assert(field_value(segs, key_name()) == name) by {
        reveal_with_fuel(field_value, 6);
    }
    assert(field_value(segs, key_symbol()) == symbol) by {
        reveal_with_fuel(field_value, 6);
    }
}

/// Reads a relay message: entries separated by commas, each split at its first
/// colon into key and value; entries without a colon and unknown keys are
/// skipped, and a later entry overrides an earlier one with the same key.
pub fn parse_cross_chain_nft_data(data: &Vec<u8>) -> (r: Result<CrossChainNftData, ErrorCode>)
    ensures
        r is Ok <==> payload_decodes(data@),
        r is Err ==> r->Err_0 == ErrorCode::InvalidOriginalChain,
        r matches Ok(d) ==> {
            &&& d.original_chain@ == payload_field(data@, key_chain())
            &&& d.token_id@ == payload_field(data@, key_token_id())
            &&& d.metadata_uri@ == payload_field(data@, key_uri())
            &&& d.name@ == payload_field(data@, key_name())
            &&& d.symbol@ == payload_field(data@, key_symbol())
        },
{
    if !is_utf8(data.as_slice()) {
        return Err(ErrorCode::InvalidOriginalChain);
    }
    let mut nft = CrossChainNftData {
        original_chain: Vec::new(),
        token_id: Vec::new(),
        metadata_uri: Vec::new(),
        name: Vec::new(),
        symbol: Vec::new(),
    };
    let mut start: usize = 0;
    let mut i: usize = 0;
    let ghost mut done: Seq<Seq<u8>> = Seq::empty();
    assert(data@.subrange(0, 0) =~= Seq::<u8>::empty());
    while i < data.len()
        invariant
            start <= i <= data@.len(),
            split_bytes(data@.subrange(0, i as int), COMMA) == done.push(
                data@.subrange(start as int, i as int),
            ),
            nft.original_chain@ == field_value(done, key_chain()),
            nft.token_id@ == field_value(done, key_token_id()),
            nft.metadata_uri@ == field_value(done, key_uri()),
            nft.name@ == field_value(done, key_name()),
            nft.symbol@ == field_value(done, key_symbol()),
        decreases data@.len() - i,
    {
        let ghost prefix = data@.subrange(0, i as int + 1);
        assert(prefix.drop_last() =~= data@.subrange(0, i as int));
        if data[i] == COMMA {
            apply_entry(&mut nft, data, start, i);
            proof {
                let seg = data@.subrange(start as int, i as int);
                assert(done.push(seg).drop_last() =~= done);
                done = done.push(seg);
                assert(data@.subrange(i as int + 1, i as int + 1) =~= Seq::<u8>::empty());
            }
            start = i + 1;
        } else {
            proof {
                let seg = data@.subrange(start as int, i as int);
                assert(data@.subrange(start as int, i as int + 1) =~= seg.push(data@[i as int]));
                assert(done.push(seg).update(done.len() as int, seg.push(data@[i as int]))
                    =~= done.push(seg.push(data@[i as int])));
            }
        }
        i += 1;
    }
    apply_entry(&mut nft, data, start, data.len());
    proof {
        let seg = data@.subrange(start as int, data@.len() as int);
        assert(done.push(seg).drop_last() =~= done);
        assert(data@.subrange(0, data@.len() as int) =~= data@);
        done = done.push(seg);
    }
    if nft.original_chain.len() == 0 || nft.token_id.len() == 0 {
        return Err(ErrorCode::InvalidOriginalChain);
    }
    Ok(nft)
}

/// The decimal digits of `n`, most significant first, without leading zeros.
pub open spec fn decimal_of(n: nat) -> Seq<u8>
    decreases n,
{
    if n < 10 {
        seq![(48 + n) as u8]
    } else {
        decimal_of(n / 10).push((48 + n % 10) as u8)
    }
}

proof fn lemma_decimal_nonempty(n: nat)
    ensures
        decimal_of(n).len() >= 1,
    decreases n,
{
    if n >= 10 {
        lemma_decimal_nonempty(n / 10);
    }
}

/// `n` written in decimal, as `u64::to_string` writes it.
pub fn decimal_u64(n: u64) -> (r: Vec<u8>)
    ensures
        r@ == decimal_of(n as nat),
        r@.len() >= 1,
    decreases n,
{
    proof {
        lemma_decimal_nonempty(n as nat);
    }
    if n < 10 {
        let r = vec![(48 + n) as u8];
        assert(r@ =~= decimal_of(n as nat));
        r
    } else {
        let mut r = decimal_u64(n / 10);
        r.push((48 + n % 10) as u8);
        r
    }
}

/// Whether two byte strings are equal.
pub fn bytes_eq(a: &Vec<u8>, b: &Vec<u8>) -> (r: bool)
    ensures
        r == (a@ == b@),
{
    let r = range_eq(a, 0, a.len(), b);
    assert(a@.subrange(0, a@.len() as int) =~= a@);
    r
}

/// A copy of `a`.
pub fn copy_bytes(a: &Vec<u8>) -> (r: Vec<u8>)
    ensures
        r@ == a@,
{
    let r = copy_range(a, 0, a.len());
    assert(a@.subrange(0, a@.len() as int) =~= a@);
    r
}

} // verus!
