//! Launch settings for apps relaunched with a DevTools endpoint: the port an
//! app gets and the name of its browser-bridge session.
use vstd::prelude::*;
use vstd::string::*;
use crate::cli::{lowercase, to_lower};
use crate::text::push_char;

verus! {

/// The first port handed out to relaunched apps.
pub const LAUNCH_PORT_FIRST: u16 = 9222;
/// The last port handed out to relaunched apps.
pub const LAUNCH_PORT_LAST: u16 = 9399;

/// The 64-bit hash that `DefaultHasher::new()` gives a string.
pub uninterp spec fn str_hash(s: Seq<char>) -> u64;

/// Hashes a string with a fresh `DefaultHasher` (SipHash with fixed keys, so
/// the same string hashes the same way in every run of a given build). The
/// algorithm is not restated; the result is only tied to `str_hash`.
#[verifier::external_body]
fn hash_str(s: &str) -> (r: u64)
    ensures
        r == str_hash(s@),
{
    let mut hasher = std::collections::hash_map::DefaultHasher::new();
    std::hash::Hash::hash(s, &mut hasher);
    std::hash::Hasher::finish(&hasher)
}

/// The port assigned to an app: its lower-cased name hashed into 9222..=9399.
pub open spec fn port_for(app_name: Seq<char>) -> int {
    LAUNCH_PORT_FIRST + str_hash(lowercase(app_name)) % 178
}

/// The DevTools port assigned to an app, chosen from its name so that the
/// same app always gets the same port, whatever the case of its name.
pub fn deterministic_port(app_name: &str) -> (r: u16)
    ensures
        r as int == port_for(app_name@),
        LAUNCH_PORT_FIRST <= r <= LAUNCH_PORT_LAST,
{
    let lower = to_lower(app_name);
    let hash = hash_str(lower.as_str());
    let range: u64 = (LAUNCH_PORT_LAST - LAUNCH_PORT_FIRST + 1) as u64;
    LAUNCH_PORT_FIRST + (hash % range) as u16
}

/// Two names that lower-case alike get the same port.
pub proof fn law_port_ignores_case(a: Seq<char>, b: Seq<char>)
    requires
        lowercase(a) == lowercase(b),
    ensures
        port_for(a) == port_for(b),
        LAUNCH_PORT_FIRST <= port_for(a) <= LAUNCH_PORT_LAST,
{
}

/// `s` with every `from` replaced by `to`.
pub open spec fn replace_char(s: Seq<char>, from: char, to: char) -> Seq<char> {
    s.map_values(|c: char| if c == from { to } else { c })
}

/// The browser-bridge session of an app: its lower-cased name with spaces
/// turned into dashes.
pub fn session_name(app_name: &str) -> (r: String)
    ensures
        r@ == replace_char(lowercase(app_name@), ' ', '-'),
{
    let lower = to_lower(app_name);
    let s = lower.as_str();
    let n = s.unicode_len();
    let mut out = String::new();
    let mut i: usize = 0;
    while i < n
        invariant
            n == s@.len(),
            s@ == lowercase(app_name@),
            i <= n,
            out@ == replace_char(s@.take(i as int), ' ', '-'),
        decreases n - i,
    {
        let c = s.get_char(i);
        push_char(&mut out, if c == ' ' { '-' } else { c });
        assert(replace_char(s@.take(i + 1), ' ', '-') =~= replace_char(s@.take(i as int), ' ', '-').push(if c == ' ' { '-' } else { c }));
        i = i + 1;
    }
    assert(s@.take(n as int) =~= s@);
    out
}

} // verus!
