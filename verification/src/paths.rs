//! The well-known socket path the hub listens on and the relay connects to.
//!
//! On the platform family with a named-pipe namespace the endpoint is a fixed
//! pipe name; on the others it is a fixed filename under the invoking user's
//! home directory. The choice between the two is made at compile time by the
//! embedding process.

use vstd::prelude::*;

verus! {

use vstd::utf8::encode_utf8;
use vstd::utf8::valid_utf8;
use vstd::utf8::encode_utf8_valid_utf8;
use vstd::utf8::encode_utf8_decode_utf8;
use crate::codec::string_from_utf8;
use crate::codec::lemma_encode_utf8_concat;

/// The path of the socket, relative to the user's home directory.
pub open spec fn unix_socket_suffix() -> Seq<char> {
    "/tmp/bitwarden.sock"@
}

/// The pipe name of the socket in the named-pipe namespace.
pub open spec fn pipe_path_text() -> Seq<char> {
    "\\\\.\\pipe\\bitwarden.sock"@
}

/// Relies on dirs::home_dir: the invoking user's home directory, if the
/// platform knows one. The result depends on the environment, so nothing
/// more is promised of it.
#[verifier::external_body]
fn home_dir_string() -> (r: Option<String>) {
    dirs::home_dir().map(|p| p.to_string_lossy().into_owned())
}

/// The socket path under the given home directory.
pub fn socket_path_from_home(home: &str) -> (r: String)
    ensures
        r@ == home@ + unix_socket_suffix(),
{
    let home_bytes = home.as_bytes();
    let suffix = "/tmp/bitwarden.sock";
    let suffix_bytes = suffix.as_bytes();
    let mut joined: Vec<u8> = Vec::new();
    let mut i: usize = 0;
    while i < home_bytes.len()
        invariant
            i <= home_bytes.len(),
            home_bytes@ == encode_utf8(home@),
            joined@ == home_bytes@.take(i as int),
        decreases home_bytes.len() - i,
    {
        joined.push(home_bytes[i]);
        i = i + 1;
        proof {
            assert(home_bytes@.take(i as int) == home_bytes@.take(i - 1).push(
                home_bytes@[i - 1],
            ));
        }
    }
    proof {
        assert(home_bytes@.take(home_bytes@.len() as int) =~= home_bytes@);
    }
    let mut j: usize = 0;
    while j < suffix_bytes.len()
        invariant
            j <= suffix_bytes.len(),
            home_bytes@ == encode_utf8(home@),
            suffix_bytes@ == encode_utf8(unix_socket_suffix()),
            joined@ == home_bytes@ + suffix_bytes@.take(j as int),
        decreases suffix_bytes.len() - j,
    {
        joined.push(suffix_bytes[j]);
        j = j + 1;
        proof {
            assert(suffix_bytes@.take(j as int) == suffix_bytes@.take(j - 1).push(
                suffix_bytes@[j - 1],
            ));
            assert(home_bytes@ + suffix_bytes@.take(j as int) =~= (home_bytes@
                + suffix_bytes@.take(j - 1)).push(suffix_bytes@[j - 1]));
        }
    }
    proof {
        assert(suffix_bytes@.take(suffix_bytes@.len() as int) =~= suffix_bytes@);
        lemma_encode_utf8_concat(home@, unix_socket_suffix());
        assert(joined@ == encode_utf8(home@ + unix_socket_suffix()));
        encode_utf8_valid_utf8(home@ + unix_socket_suffix());
        encode_utf8_decode_utf8(home@ + unix_socket_suffix());
    }
    match string_from_utf8(joined) {
        Some(s) => s,
        None => unreached(),
    }
}

/// The socket path on the platform families that place it under the user's
/// home directory, or `None` when the platform knows no home directory.
pub fn path() -> (r: Option<String>)
    ensures
        r matches Some(p) ==> exists|h: Seq<char>| p@ == h + unix_socket_suffix(),
{
    match home_dir_string() {
        Some(home) => {
            let p = socket_path_from_home(home.as_str());
            proof {
                assert(p@ == home@ + unix_socket_suffix());
            }
            Some(p)
        },
        None => None,
    }
}

/// The socket path on the platform family with a named-pipe namespace.
pub fn windows_pipe_path() -> (r: String)
    ensures
        r@ == pipe_path_text(),
{
    "\\\\.\\pipe\\bitwarden.sock".to_owned()
}

} // verus!
