//! Connecting to Gerrit over SSH.

use vstd::prelude::*;

verus! {

/// Name of `std::path::Path::with_extension`: the path with its extension
/// replaced by (or extended with) the given one.
pub uninterp spec fn path_with_extension(path: Seq<char>, extension: Seq<char>) -> Seq<char>;

/// `std::path::Path::new(path).with_extension(extension)`, as a string.
/// Claimed: the result is a function of the path and the extension alone.
/// An extension holding a path separator makes recent versions of std
/// panic, so it is excluded.
#[verifier::external_body]
fn with_extension(path: &str, extension: &str) -> (r: String)
    requires
        !extension@.contains('/'),
        !extension@.contains('\\'),
    ensures
        r@ == path_with_extension(path@, extension@),
{
    std::path::Path::new(path).with_extension(extension).to_string_lossy().into_owned()
}

/// The public key file that belongs to a private key file: the same path
/// with the extension `pub`.
pub fn get_pub_key_path(priv_key_path: &str) -> (r: String)
    ensures
        r@ == path_with_extension(priv_key_path@, "pub"@),
{
    proof {
        reveal_strlit("pub");
        assert(!"pub"@.contains('/'));
        assert(!"pub"@.contains('\\'));
    }
    with_extension(priv_key_path, "pub")
}

} // verus!
