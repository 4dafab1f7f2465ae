//! Where the remote side finds its files.

use crate::command_delivery::path_bytes;
use crate::unix_path::{fits_unix_socket_path, joined, UnixPath, MAX_SOCKET_PATH};
use vstd::prelude::*;
use vstd::utf8::*;

verus! {

/// The configuration files of the SSH client.
#[derive(Debug)]
pub struct RemoteSshConfigPaths {
    /// The user's own, where the user has a home.
    pub user_config: Option<UnixPath>,
    /// The one of the whole system.
    pub system_config: Option<UnixPath>,
    /// Whether connections can be shared.
    pub multiplexing: bool,
}

/// The configuration files of the SSH client, for a user with the given home.
pub fn remote_ssh_config_paths(home: Option<UnixPath>) -> (paths: RemoteSshConfigPaths)
    ensures
        path_bytes(paths.user_config) == match home {
            Some(dir) => Some(joined(joined(dir@, encode_utf8(".ssh"@)), encode_utf8("config"@))),
            None => None,
        },
        path_bytes(paths.system_config) == Some(encode_utf8("/etc/ssh/ssh_config"@)),
        paths.multiplexing,
        paths.user_config is Some <==> home is Some,
        home matches Some(dir) ==> paths.user_config->0@ == joined(
            joined(dir@, encode_utf8(".ssh"@)),
            encode_utf8("config"@),
        ),
        paths.system_config matches Some(path) && path@ == encode_utf8("/etc/ssh/ssh_config"@),
{
    RemoteSshConfigPaths {
        user_config: match home {
            Some(dir) => Some(dir.join(".ssh").join("config")),
            None => None,
        },
        system_config: Some(UnixPath::from_text("/etc/ssh/ssh_config")),
        multiplexing: true,
    }
}

/// A pathname at which a socket can be bound.
pub open spec fn fits(path: Seq<u8>) -> bool {
    path.len() <= MAX_SOCKET_PATH
}

/// The pathname of a bridge's socket: below `tmp`, by the readable name where
/// that fits and by the short one where only that does, and below `/tmp`
/// otherwise.
pub open spec fn bridge_endpoint(tmp: Seq<u8>, readable: Seq<u8>, short: Seq<u8>) -> Seq<u8> {
    if fits(joined(tmp, readable)) {
        joined(tmp, readable)
    } else if fits(joined(tmp, short)) {
        joined(tmp, short)
    } else {
        joined(encode_utf8("/tmp"@), short)
    }
}

/// The pathname at which a bridge's socket is bound.
pub fn remote_bridge_endpoint_path(tmp: &UnixPath, readable_name: &str, short_name: &str) -> (path:
    UnixPath)
    ensures
        path@ == bridge_endpoint(tmp@, encode_utf8(readable_name@), encode_utf8(short_name@)),
        joined(tmp@, encode_utf8(readable_name@)).len() <= 103 ==> path@ == joined(
            tmp@,
            encode_utf8(readable_name@),
        ),
        joined(tmp@, encode_utf8(readable_name@)).len() > 103 && joined(
            tmp@,
            encode_utf8(short_name@),
        ).len() <= 103 ==> path@ == joined(tmp@, encode_utf8(short_name@)),
        joined(tmp@, encode_utf8(readable_name@)).len() > 103 && joined(
            tmp@,
            encode_utf8(short_name@),
        ).len() > 103 ==> path@ == joined(encode_utf8("/tmp"@), encode_utf8(short_name@)),
{
    let readable = tmp.join(readable_name);
    if fits_unix_socket_path(&readable) {
        return readable;
    }
    let short = tmp.join(short_name);
    if fits_unix_socket_path(&short) {
        return short;
    }
    UnixPath::from_text("/tmp").join(short_name)
}

/// A pathname of up to 103 bytes can be bound, a longer one cannot.
pub proof fn law_how_long_a_socket_path_can_be(path: Seq<u8>)
    ensures
        fits(path) <==> path.len() <= 103,
{
}

/// The temporary directory is left only where neither name fits in it, and the
/// readable name is given up only where it does not fit there.
pub proof fn law_the_readable_name_comes_first(tmp: Seq<u8>, readable: Seq<u8>, short: Seq<u8>)
    ensures
        joined(tmp, readable).len() <= 103 ==> bridge_endpoint(tmp, readable, short) == joined(
            tmp,
            readable,
        ),
        joined(tmp, readable).len() > 103 && joined(tmp, short).len() <= 103 ==> bridge_endpoint(
            tmp,
            readable,
            short,
        ) == joined(tmp, short),
        joined(tmp, readable).len() > 103 && joined(tmp, short).len() > 103 ==> bridge_endpoint(
            tmp,
            readable,
            short,
        ) == joined(encode_utf8("/tmp"@), short),
{
}

/// A short name of up to 98 bytes always makes a pathname that fits, wherever the
/// temporary directory is and however long the readable name.
pub proof fn law_a_short_name_always_fits(tmp: Seq<u8>, readable: Seq<u8>, short: Seq<u8>)
    requires
        short.len() <= 98,
    ensures
        fits(bridge_endpoint(tmp, readable, short)),
{
    reveal_strlit("/tmp");
    is_ascii_chars_encode_utf8("/tmp"@);
}

/// The endpoint fits wherever any of the three pathnames does.
pub proof fn law_an_endpoint_fits_if_any_does(tmp: Seq<u8>, readable: Seq<u8>, short: Seq<u8>)
    ensures
        fits(bridge_endpoint(tmp, readable, short)) <==> fits(joined(tmp, readable)) || fits(
            joined(tmp, short),
        ) || fits(joined(encode_utf8("/tmp"@), short)),
{
}

} // verus!
