//! Access control records: API keys with scoped permissions, audit logging,
//! and the pure authorization steps over a list of keys. Key material is
//! compared through SHA-256 digests rendered as lowercase hex; the digest
//! itself comes from an outside implementation, everything around it is
//! verified.

use vstd::prelude::*;
use vstd::string::{StringSliceAdditionalSpecFns, StringExecFns};
use crate::util::{str_eq, not_found_message};

verus! {

/// Permission scopes.
#[derive(Debug, Clone, Copy, PartialEq, Eq, Structural)]
pub enum Scope {
    Read,
    Write,
    Admin,
}

/// An API key. The raw key value is shown once at creation and only its
/// SHA-256 hash is kept for comparison.
#[derive(Debug, Clone)]
pub struct ApiKey {
    pub id: String,
    pub label: String,
    pub key: Option<String>,
    pub key_hash: String,
    pub scopes: Vec<Scope>,
    pub created_at: String,
    pub last_used_at: Option<String>,
    pub revoked: bool,
}

/// Audit log entry.
#[derive(Debug, Clone)]
pub struct AuditEntry {
    pub id: String,
    pub timestamp: String,
    pub actor: String,
    pub action: String,
    pub resource: String,
    pub detail: String,
    pub ip: Option<String>,
}

/// Request to create an API key.
#[derive(Debug, Clone)]
pub struct CreateApiKeyRequest {
    pub label: String,
    pub scopes: Vec<Scope>,
}

/// The SHA-256 digest of a byte sequence: a pure function of the bytes
/// alone.
pub uninterp spec fn sha256_of(data: Seq<u8>) -> Seq<u8>;

/// Relies on `sha2::Sha256` through the `Digest::digest` convenience: the
/// SHA-256 digest of the input, 32 bytes, a function of the bytes alone.
#[verifier::external_body]
fn sha256_digest(data: &[u8]) -> (r: Vec<u8>)
    ensures
        r@ == sha256_of(data@),
        r@.len() == 32,
{
    let d = <sha2::Sha256 as sha2::Digest>::digest(data);
    d.as_slice().to_vec()
}

/// The lowercase hex character of a nibble.
pub open spec fn spec_hex_char(n: u8) -> char {
    if n == 0 {
        '0'
    } else if n == 1 {
        '1'
    } else if n == 2 {
        '2'
    } else if n == 3 {
        '3'
    } else if n == 4 {
        '4'
    } else if n == 5 {
        '5'
    } else if n == 6 {
        '6'
    } else if n == 7 {
        '7'
    } else if n == 8 {
        '8'
    } else if n == 9 {
        '9'
    } else if n == 10 {
        'a'
    } else if n == 11 {
        'b'
    } else if n == 12 {
        'c'
    } else if n == 13 {
        'd'
    } else if n == 14 {
        'e'
    } else {
        'f'
    }
}

/// The lowercase hex rendering of a byte sequence: two characters per byte,
/// high nibble first.
pub open spec fn spec_hex_chars(bytes: Seq<u8>) -> Seq<char>
    decreases bytes.len(),
{
    if bytes.len() == 0 {
        Seq::empty()
    } else {
        seq![spec_hex_char(bytes[0] / 16), spec_hex_char(bytes[0] % 16)] + spec_hex_chars(
            bytes.drop_first(),
        )
    }
}

fn nibble_str(n: u8) -> (r: &'static str)
    requires
        n < 16,
    ensures
        r@ == seq![spec_hex_char(n)],
{
    let s: &'static str = match n {
        0 => "0",
        1 => "1",
        2 => "2",
        3 => "3",
        4 => "4",
        5 => "5",
        6 => "6",
        7 => "7",
        8 => "8",
        9 => "9",
        10 => "a",
        11 => "b",
        12 => "c",
        13 => "d",
        14 => "e",
        _ => "f",
    };
    proof {
        reveal_strlit("0");
        reveal_strlit("1");
        reveal_strlit("2");
        reveal_strlit("3");
        reveal_strlit("4");
        reveal_strlit("5");
        reveal_strlit("6");
        reveal_strlit("7");
        reveal_strlit("8");
        reveal_strlit("9");
        reveal_strlit("a");
        reveal_strlit("b");
        reveal_strlit("c");
        reveal_strlit("d");
        reveal_strlit("e");
        reveal_strlit("f");
        assert(s@ =~= seq![spec_hex_char(n)]);
    }
    s
}

/// Render bytes as lowercase hex.
pub fn bytes_to_hex(bytes: &[u8]) -> (r: String)
    ensures
        r@ == spec_hex_chars(bytes@),
{
    let n = bytes.len();
    let mut out = String::new();
    let mut i: usize = 0;
    proof {
        assert(bytes@.skip(0) =~= bytes@);
        assert(out@ + spec_hex_chars(bytes@) =~= spec_hex_chars(bytes@));
    }
    while i < n
        invariant
            0 <= i <= n,
            n == bytes@.len(),
            out@ + spec_hex_chars(bytes@.skip(i as int)) == spec_hex_chars(bytes@),
        decreases n - i,
    {
        let b = *vstd::slice::slice_index_get(bytes, i);
        let ghost prev = out@;
        out.append(nibble_str(b / 16));
        out.append(nibble_str(b % 16));
        proof {
            let rest = bytes@.skip(i as int);
            assert(rest.drop_first() =~= bytes@.skip(i + 1));
            assert(out@ + spec_hex_chars(bytes@.skip(i + 1)) =~= prev + spec_hex_chars(rest));
        }
        i = i + 1;
    }
    proof {
        assert(bytes@.skip(n as int) =~= Seq::<u8>::empty());
        assert(out@ =~= spec_hex_chars(bytes@));
    }
    out
}

/// The SHA-256 digest of a string, rendered as lowercase hex: the stored
/// form of key material.
pub fn sha256_hex(input: &str) -> (r: String)
    ensures
        r@ == spec_hex_chars(sha256_of(input.spec_bytes())),
{
    let digest = sha256_digest(input.as_bytes());
    bytes_to_hex(digest.as_slice())
}

/// Equality of two strings in constant time per length: the byte-wise XOR
/// differences are folded together and compared to zero once.
pub fn constant_time_eq(a: &str, b: &str) -> (r: bool)
    ensures
        r == (a@ == b@),
{
    let ab = a.as_bytes();
    let bb = b.as_bytes();
    let n = ab.len();
    if n != bb.len() {
        proof {
            if a@ == b@ {
                assert(a.spec_bytes() == b.spec_bytes());
            }
        }
        return false;
    }
    let mut diff: u8 = 0;
    let mut i: usize = 0;
    while i < n
        invariant
            0 <= i <= n,
            n == ab@.len() == bb@.len(),
            (diff == 0) <==> (forall|k: int| 0 <= k < i ==> ab@[k] == bb@[k]),
        decreases n - i,
    {
        let x = *vstd::slice::slice_index_get(ab, i);
        let y = *vstd::slice::slice_index_get(bb, i);
        let t = x ^ y;
        proof {
            assert((x ^ y) == 0 <==> x == y) by (bit_vector);
            assert((diff | t) == 0 <==> diff == 0 && t == 0) by (bit_vector);
        }
        diff = diff | t;
        i = i + 1;
    }
    proof {
        if diff == 0 {
            assert(ab@ =~= bb@);
            vstd::utf8::encode_utf8_decode_utf8(a@);
            vstd::utf8::encode_utf8_decode_utf8(b@);
        }
        if a@ == b@ {
            assert(a.spec_bytes() == b.spec_bytes());
        }
    }
    diff == 0
}

/// A key grants a scope iff it carries that scope or the `Admin` scope.
pub fn has_scope(key: &ApiKey, required: Scope) -> (r: bool)
    ensures
        r == (key.scopes@.contains(Scope::Admin) || key.scopes@.contains(required)),
{
    let n = key.scopes.len();
    let mut i: usize = 0;
    while i < n
        invariant
            0 <= i <= n,
            n == key.scopes@.len(),
            forall|k: int|
                0 <= k < i ==> key.scopes@[k] != Scope::Admin && key.scopes@[k] != required,
        decreases n - i,
    {
        let s = *key.scopes.get(i).unwrap();
        if s == Scope::Admin || s == required {
            return true;
        }
        i = i + 1;
    }
    proof {
        assert(!key.scopes@.contains(Scope::Admin));
        assert(!key.scopes@.contains(required));
    }
    false
}

/// Revoke the first key with the given id. Returns an error iff no key
/// carries the id; on error nothing changes. Everything but the `revoked`
/// mark is untouched.
pub fn revoke_key(keys: &mut Vec<ApiKey>, key_id: &str) -> (r: Result<(), String>)
    ensures
        r is Err <==> (forall|k: int| 0 <= k < old(keys)@.len() ==> old(keys)@[k].id@ != key_id@),
        r matches Err(m) ==> final(keys)@ == old(keys)@ && m@ == "Key"@ + " '"@ + key_id@
            + "' not found"@,
        r is Ok ==> exists|i: int|
            {
                &&& 0 <= i < old(keys)@.len()
                &&& old(keys)@[i].id@ == key_id@
                &&& forall|k: int| 0 <= k < i ==> old(keys)@[k].id@ != key_id@
                &&& final(keys)@.len() == old(keys)@.len()
                &&& (forall|k: int|
                    0 <= k < old(keys)@.len() && k != i ==> final(keys)@[k] == old(keys)@[k])
                &&& final(keys)@[i] == ApiKey { revoked: true, ..old(keys)@[i] }
            },
{
    let n = keys.len();
    let mut i: usize = 0;
    while i < n
        invariant
            0 <= i <= n,
            n == keys@.len(),
            keys@ == old(keys)@,
            forall|k: int| 0 <= k < i ==> keys@[k].id@ != key_id@,
        decreases n - i,
    {
        if str_eq(keys.get(i).unwrap().id.as_str(), key_id) {
            let orig = keys.remove(i);
            let upd = ApiKey {
                id: orig.id,
                label: orig.label,
                key: orig.key,
                key_hash: orig.key_hash,
                scopes: orig.scopes,
                created_at: orig.created_at,
                last_used_at: orig.last_used_at,
                revoked: true,
            };
            keys.insert(i, upd);
            proof {
                broadcast use vstd::seq_lib::lemma_update_is_remove_insert;

                let wi = i as int;
                assert(keys@ =~= old(keys)@.update(wi, keys@[wi]));
                assert(keys@[wi] == ApiKey { revoked: true, ..old(keys)@[wi] });
                assert(forall|k: int|
                    0 <= k < old(keys)@.len() && k != wi ==> keys@[k] == old(keys)@[k]);
            }
            return Ok(());
        }
        i = i + 1;
    }
    Err(not_found_message("Key", key_id))
}

/// Validate a bearer token: hash it and find the first unrevoked key whose
/// stored hash equals the token's hash; stamp that key's last use. Returns
/// the key's index, or `None` iff no unrevoked key matches; then nothing
/// changes.
pub fn validate_token(keys: &mut Vec<ApiKey>, token: &str, now: &str) -> (r: Option<usize>)
    ensures
        ({
            let h = spec_hex_chars(sha256_of(token.spec_bytes()));
            &&& (r is None <==> (forall|k: int|
                0 <= k < old(keys)@.len() ==> !(old(keys)@[k].key_hash@ == h && !old(
                    keys,
                )@[k].revoked)))
            &&& (r is None ==> final(keys)@ == old(keys)@)
            &&& (r matches Some(i) ==> {
                &&& 0 <= i < old(keys)@.len()
                &&& old(keys)@[i as int].key_hash@ == h
                &&& !old(keys)@[i as int].revoked
                &&& forall|k: int|
                    0 <= k < i ==> !(old(keys)@[k].key_hash@ == h && !old(keys)@[k].revoked)
                &&& final(keys)@.len() == old(keys)@.len()
                &&& (forall|k: int|
                    0 <= k < old(keys)@.len() && k != i ==> final(keys)@[k] == old(keys)@[k])
                &&& ({
                    let u = final(keys)@[i as int];
                    let orig = old(keys)@[i as int];
                    &&& u.id == orig.id
                    &&& u.label == orig.label
                    &&& u.key == orig.key
                    &&& u.key_hash == orig.key_hash
                    &&& u.scopes == orig.scopes
                    &&& u.created_at == orig.created_at
                    &&& match u.last_used_at {
                        Some(t) => t@ == now@,
                        None => false,
                    }
                    &&& u.revoked == orig.revoked
                })
            })
        }),
{
    let hash = sha256_hex(token);
    let n = keys.len();
    let mut i: usize = 0;
    while i < n
        invariant
            0 <= i <= n,
            n == keys@.len(),
            keys@ == old(keys)@,
            hash@ == spec_hex_chars(sha256_of(token.spec_bytes())),
            forall|k: int|
                0 <= k < i ==> !(keys@[k].key_hash@ == hash@ && !keys@[k].revoked),
        decreases n - i,
    {
        let matches_hash = constant_time_eq(keys.get(i).unwrap().key_hash.as_str(), hash.as_str());
        if matches_hash && !keys.get(i).unwrap().revoked {
            let orig = keys.remove(i);
            let upd = ApiKey {
                id: orig.id,
                label: orig.label,
                key: orig.key,
                key_hash: orig.key_hash,
                scopes: orig.scopes,
                created_at: orig.created_at,
                last_used_at: Some(now.to_owned()),
                revoked: orig.revoked,
            };
            keys.insert(i, upd);
            return Some(i);
        }
        i = i + 1;
    }
    None
}

/// Append an audit entry, dropping the oldest entry first when the log is at
/// capacity.
pub fn append_audit(log: &mut Vec<AuditEntry>, capacity: usize, entry: AuditEntry)
    ensures
        final(log)@ == (if old(log)@.len() >= capacity && old(log)@.len() > 0 {
            old(log)@.drop_first()
        } else {
            old(log)@
        }).push(entry),
{
    if log.len() >= capacity && log.len() > 0 {
        let _evicted = log.remove(0);
        proof {
            assert(log@ =~= old(log)@.drop_first());
        }
    }
    log.push(entry);
}

} // verus!
