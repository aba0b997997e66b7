//! Transport-facing data: topic payloads, the Home Assistant discovery
//! record, and broker client-id handling.
use vstd::prelude::*;

pub mod homeassistant;
pub mod string_serializer;
pub mod topics;

verus! {

/// A broker client id: the prefix, an underscore, and the first eight
/// characters of a fresh random identifier.
pub open spec fn client_id_of(prefix: Seq<char>, uuid: Seq<char>) -> Seq<char> {
    prefix + "_"@ + uuid.take(8)
}

/// Relies on uuid::Uuid::new_v4 and its Display form: a fresh random
/// identifier always prints as 36 hyphenated characters.
#[verifier::external_body]
fn uuid_v4_string() -> (r: String)
    ensures
        r@.len() == 36,
{
    uuid::Uuid::new_v4().to_string()
}

/// A fresh broker client id for the given prefix.  The random part makes
/// collisions between concurrent clients unlikely; nothing more is assumed
/// of it.
pub fn get_client_id(prefix: &str) -> (r: String)
    ensures
        exists|u: Seq<char>| u.len() == 36 && r@ == client_id_of(prefix@, u),
{
    let uuid = uuid_v4_string();
    let short = uuid.as_str().substring_char(0, 8);
    let mut r = prefix.to_owned();
    r.append("_");
    r.append(short);
    proof {
        assert(r@ =~= client_id_of(prefix@, uuid@));
    }
    r
}

/// Whether `c` occurs in `s`.
#[verifier::loop_isolation(false)]
fn contains_char(s: &str, c: char) -> (r: bool)
    ensures
        r == s@.contains(c),
{
    let n = s.unicode_len();
    let mut i: usize = 0;
    while i < n
        invariant
            i <= n,
            n == s@.len(),
            forall|q: int| 0 <= q < i ==> s@[q] != c,
        decreases n - i,
    {
        if s.get_char(i) == c {
            assert(s@.contains(c));
            return true;
        }
        i += 1;
    }
    assert(!s@.contains(c));
    false
}

/// A broker URL with a client id appended: after `&` when the URL already
/// carries query parameters, after `?` otherwise.
pub open spec fn url_with_client_id(base: Seq<char>, id: Seq<char>) -> Seq<char> {
    if base.contains('?') {
        base + "&client_id="@ + id
    } else {
        base + "?client_id="@ + id
    }
}

/// Attach a fresh client id to a broker URL.
pub fn build_url(base_url: &str, client_id_prefix: &str) -> (r: String)
    ensures
        exists|u: Seq<char>|
            u.len() == 36 && r@ == url_with_client_id(
                base_url@,
                client_id_of(client_id_prefix@, u),
            ),
{
    let client_id = get_client_id(client_id_prefix);
    let ghost u = choose|u: Seq<char>|
        u.len() == 36 && client_id@ == client_id_of(client_id_prefix@, u);
    let mut r = base_url.to_owned();
    if contains_char(base_url, '?') {
        r.append("&client_id=");
    } else {
        r.append("?client_id=");
    }
    r.append(client_id.as_str());
    proof {
        assert(r@ =~= url_with_client_id(base_url@, client_id_of(client_id_prefix@, u)));
    }
    r
}

} // verus!
