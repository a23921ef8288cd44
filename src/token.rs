use vstd::prelude::*;

verus! {

/// Longest connection identifier that a packet may carry.
pub const MAX_CONN_ID_LEN: usize = 20;

/// Bytes of an address as bound into a token: 16 address octets, then the port.
pub const ADDRESS_LEN: usize = 18;

/// Bytes of a keyed tag.
pub const TAG_LEN: usize = 32;

/// A packet's source: an IPv6 address (IPv4 mapped into it) and a port.
#[derive(Clone, Copy, Debug, PartialEq, Eq)]
pub struct SourceAddress {
    pub ip: [u8; 16],
    pub port: u16,
}

/// HMAC-SHA256 of `data` under `key`.
pub uninterp spec fn hmac_sha256(key: Seq<u8>, data: Seq<u8>) -> Seq<u8>;

/// Relies on ring::hmac::sign with HMAC_SHA256: a 32-byte tag that depends on the key and
/// the data alone. It panics only on data far longer than the bound here.
#[verifier::external_body]
fn hmac_tag(key: &[u8], data: &[u8]) -> (r: Vec<u8>)
    requires
        data@.len() <= 4096,
    ensures
        r@ == hmac_sha256(key@, data@),
        r@.len() == 32,
{
    let k = ring::hmac::Key::new(ring::hmac::HMAC_SHA256, key);
    ring::hmac::sign(&k, data).as_ref().to_vec()
}

pub open spec fn address_bytes(a: SourceAddress) -> Seq<u8> {
    a.ip@ + seq![(a.port >> 8) as u8, (a.port & 0xff) as u8]
}

pub open spec fn same_address(a: SourceAddress, b: SourceAddress) -> bool {
    a.ip@ == b.ip@ && a.port == b.port
}

/// The token for a connection attempt: the source address, a keyed tag over the address
/// and the original destination identifier, then that identifier.
pub open spec fn token_for(key: Seq<u8>, addr: Seq<u8>, odcid: Seq<u8>) -> Seq<u8> {
    addr + hmac_sha256(key, addr + odcid) + odcid
}

/// What a token presented from `addr` proves: the original destination identifier, when
/// the token names `addr`, carries an identifier of a legal length, and its tag matches.
pub open spec fn token_check(key: Seq<u8>, addr: Seq<u8>, token: Seq<u8>) -> Option<Seq<u8>> {
    if ADDRESS_LEN + TAG_LEN <= token.len() <= ADDRESS_LEN + TAG_LEN + MAX_CONN_ID_LEN
        && token.subrange(0, 18) == addr && token.subrange(18, 50) == hmac_sha256(
        key,
        addr + token.subrange(50, token.len() as int),
    ) {
        Some(token.subrange(50, token.len() as int))
    } else {
        None
    }
}

/// What a token presented from `addr` proves, given `tag`, the keyed tag over `addr` and
/// the identifier that the token carries.
pub open spec fn token_check_with(addr: Seq<u8>, token: Seq<u8>, tag: Seq<u8>) -> Option<
    Seq<u8>,
> {
    if ADDRESS_LEN + TAG_LEN <= token.len() <= ADDRESS_LEN + TAG_LEN + MAX_CONN_ID_LEN
        && token.subrange(0, 18) == addr && token.subrange(18, 50) == tag {
        Some(token.subrange(50, token.len() as int))
    } else {
        None
    }
}

/// Holds the process's secrets for address validation and connection identifiers.
pub struct RetryAuthority {
    token_key: Vec<u8>,
    conn_id_key: Vec<u8>,
}

fn address_to_bytes(a: &SourceAddress) -> (r: Vec<u8>)
    ensures
        r@ == address_bytes(*a),
{
    let mut r: Vec<u8> = Vec::new();
    let mut i: usize = 0;
    while i < 16
        invariant
            i <= 16,
            a.ip@.len() == 16,
            r@ == a.ip@.subrange(0, i as int),
        decreases 16 - i,
    {
        r.push(a.ip[i]);
        i = i + 1;
        assert(r@ =~= a.ip@.subrange(0, i as int));
    }
    r.push((a.port >> 8) as u8);
    r.push((a.port & 0xff) as u8);
    assert(r@ =~= address_bytes(*a));
    r
}

fn concat(a: &[u8], b: &[u8]) -> (r: Vec<u8>)
    ensures
        r@ == a@ + b@,
{
    let mut r: Vec<u8> = Vec::new();
    crate::wire::put_bytes(&mut r, a);
    crate::wire::put_bytes(&mut r, b);
    assert(r@ =~= a@ + b@);
    r
}

fn bytes_equal(a: &[u8], b: &[u8]) -> (r: bool)
    ensures
        r == (a@ == b@),
{
    if a.len() != b.len() {
        return false;
    }
    let mut i: usize = 0;
    while i < a.len()
        invariant
            a@.len() == b@.len(),
            i <= a@.len(),
            forall|j: int| 0 <= j < i ==> a@[j] == b@[j],
        decreases a@.len() - i,
    {
        if a[i] != b[i] {
            return false;
        }
        i = i + 1;
    }
    assert(a@ =~= b@);
    true
}

/// Checks a token presented from `from` against `tag`; see `token_check_with`.
pub fn open_token(from: &SourceAddress, token: &[u8], tag: &[u8]) -> (r: Option<Vec<u8>>)
    ensures
        match r {
            Some(odcid) => token_check_with(address_bytes(*from), token@, tag@) == Some(odcid@),
            None => token_check_with(address_bytes(*from), token@, tag@) is None,
        },
{
    let n = token.len();
    if n < ADDRESS_LEN + TAG_LEN || n > ADDRESS_LEN + TAG_LEN + MAX_CONN_ID_LEN {
        return None;
    }
    let addr = address_to_bytes(from);
    let claimed = crate::wire::copy_range(token, 0, ADDRESS_LEN);
    let token_tag = crate::wire::copy_range(token, ADDRESS_LEN, ADDRESS_LEN + TAG_LEN);
    if !bytes_equal(claimed.as_slice(), addr.as_slice()) || !bytes_equal(
        token_tag.as_slice(),
        tag,
    ) {
        return None;
    }
    Some(crate::wire::copy_range(token, ADDRESS_LEN + TAG_LEN, n))
}

impl RetryAuthority {
    pub closed spec fn token_key(&self) -> Seq<u8> {
        self.token_key@
    }

    pub closed spec fn conn_id_key(&self) -> Seq<u8> {
        self.conn_id_key@
    }

    /// An authority with the given secrets; they stay fixed for its lifetime.
    pub fn new(token_key: Vec<u8>, conn_id_key: Vec<u8>) -> (r: Self)
        ensures
            r.token_key() == token_key@,
            r.conn_id_key() == conn_id_key@,
    {
        RetryAuthority { token_key, conn_id_key }
    }

    /// The token that challenges a connection attempt from `from` whose original
    /// destination identifier is `odcid`.
    pub fn mint_token(&self, odcid: &[u8], from: &SourceAddress) -> (r: Vec<u8>)
        requires
            odcid@.len() <= MAX_CONN_ID_LEN,
        ensures
            r@ == token_for(self.token_key(), address_bytes(*from), odcid@),
    {
        let addr = address_to_bytes(from);
        let signed = concat(addr.as_slice(), odcid);
        let tag = hmac_tag(self.token_key.as_slice(), signed.as_slice());
        let mut r = concat(addr.as_slice(), tag.as_slice());
        crate::wire::put_bytes(&mut r, odcid);
        r
    }

    /// The original destination identifier that a token presented from `from` proves, or
    /// nothing when the token is malformed, names another address, or was not minted here.
    pub fn validate_token(&self, from: &SourceAddress, token: &[u8]) -> (r: Option<Vec<u8>>)
        ensures
            match r {
                Some(odcid) => token_check(self.token_key(), address_bytes(*from), token@) == Some(
                    odcid@,
                ),
                None => token_check(self.token_key(), address_bytes(*from), token@) is None,
            },
    {
        let n = token.len();
        if n < ADDRESS_LEN + TAG_LEN || n > ADDRESS_LEN + TAG_LEN + MAX_CONN_ID_LEN {
            return None;
        }
        let addr = address_to_bytes(from);
        let carried = crate::wire::copy_range(token, ADDRESS_LEN + TAG_LEN, n);
        let signed = concat(addr.as_slice(), carried.as_slice());
        let tag = hmac_tag(self.token_key.as_slice(), signed.as_slice());
        open_token(from, token, tag.as_slice())
    }

    /// The identifier that the server uses for a connection whose client offered `dcid`:
    /// the first bytes of a keyed tag over it.
    pub fn derive_connection_id(&self, dcid: &[u8]) -> (r: Vec<u8>)
        requires
            dcid@.len() <= MAX_CONN_ID_LEN,
        ensures
            r@ == hmac_sha256(self.conn_id_key(), dcid@).subrange(0, MAX_CONN_ID_LEN as int),
    {
        let tag = hmac_tag(self.conn_id_key.as_slice(), dcid);
        crate::wire::copy_range(tag.as_slice(), 0, MAX_CONN_ID_LEN)
    }
}

proof fn lemma_port_bytes(p: u16, q: u16)
    requires
        p != q,
    ensures
        (p >> 8) as u8 != (q >> 8) as u8 || (p & 0xff) as u8 != (q & 0xff) as u8,
{
    assert(p != q ==> (p >> 8) as u8 != (q >> 8) as u8 || (p & 0xff) as u8 != (q & 0xff) as u8)
        by (bit_vector);
}

/// A token minted for one address proves nothing when presented from another.
pub proof fn lemma_token_bound_to_address(
    key: Seq<u8>,
    a: SourceAddress,
    b: SourceAddress,
    odcid: Seq<u8>,
)
    requires
        !same_address(a, b),
        odcid.len() <= MAX_CONN_ID_LEN,
    ensures
        token_check(key, address_bytes(b), token_for(key, address_bytes(a), odcid)) is None,
{
    let t = token_for(key, address_bytes(a), odcid);
    assert(t.subrange(0, 18) =~= address_bytes(a));
    if a.ip@ != b.ip@ {
        assert(!(a.ip@ =~= b.ip@));
        let i = choose|i: int| 0 <= i < 16 && a.ip@[i] != b.ip@[i];
        assert(address_bytes(a)[i] != address_bytes(b)[i]);
    } else {
        lemma_port_bytes(a.port, b.port);
        assert(address_bytes(a)[16] != address_bytes(b)[16] || address_bytes(a)[17]
            != address_bytes(b)[17]);
    }
}

/// A token minted for an address proves, from that address, the identifier it was minted
/// with (given a tag of the length that HMAC-SHA256 gives).
pub proof fn lemma_token_accepted_from_its_address(
    key: Seq<u8>,
    a: SourceAddress,
    odcid: Seq<u8>,
)
    requires
        odcid.len() <= MAX_CONN_ID_LEN,
        hmac_sha256(key, address_bytes(a) + odcid).len() == TAG_LEN,
    ensures
        token_check(key, address_bytes(a), token_for(key, address_bytes(a), odcid)) == Some(
            odcid,
        ),
{
    let addr = address_bytes(a);
    let t = token_for(key, addr, odcid);
    let tag = hmac_sha256(key, addr + odcid);
    assert(t.subrange(0, 18) =~= addr);
    assert(t.subrange(18, 50) =~= tag);
    assert(t.subrange(50, t.len() as int) =~= odcid);
}

} // verus!
