//! Where the local socket is that running copies of the program talk through.

use vstd::prelude::*;
use vstd::string::*;
use crate::text;
use crate::text::Text;

verus! {

broadcast use vstd::string::group_string_axioms;

/// The socket's file, in a directory of its own.
pub const SOCKET_FILE: &'static str = "ipc.sock";

/// The permissions of the socket's directory: its owner's alone.
pub const DIRECTORY_MODE: u32 = 448;

/// A path below another. An absolute one stands by itself.
pub open spec fn path_below(base: Text, name: Text) -> Text {
    if text::starts_with(name, "/"@) {
        name
    } else if base.len() == 0 || text::ends_with(base, "/"@) {
        base + name
    } else {
        base + "/"@ + name
    }
}

/// The socket's directory: named after the endpoint, below the directory for
/// what belongs to the running session, or else the one for temporary files.
pub open spec fn socket_directory(runtime_dir: Option<Text>, temp_dir: Text, endpoint: Text) -> Text {
    match runtime_dir {
        Some(base) => path_below(base, endpoint),
        None => path_below(temp_dir, endpoint),
    }
}

/// The socket in the directory where copies meet.
pub open spec fn socket_path(runtime_dir: Option<Text>, temp_dir: Text, endpoint: Text) -> Text {
    path_below(socket_directory(runtime_dir, temp_dir, endpoint), SOCKET_FILE@)
}

/// A path below another.
fn join_path(base: &str, name: &str) -> (r: String)
    ensures
        r@ == path_below(base@, name@),
{
    if text::begins_with(name, "/") {
        return name.to_owned();
    }
    let mut r = base.to_owned();
    if !base.is_empty() && !text::finishes_with(base, "/") {
        r.append("/");
    }
    r.append(name);
    r
}

/// A socket on this machine.
pub struct LocalSocket;

impl LocalSocket {
    /// The socket's directory.
    pub fn directory(runtime_dir: Option<&str>, temp_dir: &str, endpoint: &str) -> (r: String)
        ensures
            r@ == socket_directory(
                match runtime_dir {
                    Some(base) => Some(base@),
                    None => None,
                },
                temp_dir@,
                endpoint@,
            ),
    {
        match runtime_dir {
            Some(base) => join_path(base, endpoint),
            None => join_path(temp_dir, endpoint),
        }
    }

    /// The socket's file.
    pub fn path(runtime_dir: Option<&str>, temp_dir: &str, endpoint: &str) -> (r: String)
        ensures
            r@ == socket_path(
                match runtime_dir {
                    Some(base) => Some(base@),
                    None => None,
                },
                temp_dir@,
                endpoint@,
            ),
    {
        join_path(Self::directory(runtime_dir, temp_dir, endpoint).as_str(), SOCKET_FILE)
    }
}

} // verus!
