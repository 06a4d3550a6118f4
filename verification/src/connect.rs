//! Connector-side configuration: how an SSH connection authenticates,
//! and the home-directory expansion applied to key paths.
//!
//! The connectors themselves — opening the socket, the SSH handshake,
//! spawning the shell — are synchronous, bounded-duration operations the
//! embedding process performs; it registers the session and starts its
//! reader loop only once setup has succeeded, so a failed connect leaves
//! no state behind.

use vstd::prelude::*;

use crate::text::str_eq;
use crate::text::str_strip_prefix;
use vstd::string::StringExecFns;

verus! {

/// How an SSH connection authenticates: exactly one of a password or a
/// private key file with an optional passphrase.
pub enum SshAuthMethod {
    /// Username and password.
    Password {
        /// The password to present.
        password: String,
    },
    /// A private key file.
    PublicKey {
        /// The path of the private key; a leading `~` names the home
        /// directory.
        key_path: String,
        /// The passphrase of an encrypted key.
        passphrase: Option<String>,
    },
}

/// A key path after home-directory expansion: `~` alone becomes the home
/// directory, a leading `~/` is replaced by it, and any other path is
/// kept as it stands.
pub open spec fn expanded_key_path(path: Seq<char>, home: Seq<char>) -> Seq<char> {
    if path == "~"@ {
        home
    } else if "~/"@.is_prefix_of(path) {
        home + "/"@ + path.skip("~/"@.len() as int)
    } else {
        path
    }
}

/// Expands a leading `~` in a key path to the given home directory.
pub fn expand_key_path(path: &str, home: &str) -> (r: String)
    ensures
        r@ == expanded_key_path(path@, home@),
{
    if str_eq(path, "~") {
        return home.to_owned();
    }
    match str_strip_prefix(path, "~/") {
        Some(rest) => {
            let mut s = String::new();
            s.append(home);
            s.append("/");
            s.append(rest.as_str());
            s
        },
        None => path.to_owned(),
    }
}

} // verus!
