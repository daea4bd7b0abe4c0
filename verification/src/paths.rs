//! File paths, as the bytes that the system takes.
use vstd::prelude::*;
use vstd::slice::*;
use vstd::string::*;
use vstd::utf8::*;

verus! {

/// The byte that parts the names of a path.
pub const SEPARATOR: u8 = 47;

/// The path `name`, seen from the directory `base`: an absolute path stands
/// for itself, another one goes behind the directory.
pub open spec fn below(base: Seq<u8>, name: Seq<u8>) -> Seq<u8> {
    if name.len() > 0 && name[0] == SEPARATOR {
        name
    } else if base.len() == 0 || base.last() == SEPARATOR {
        base + name
    } else {
        base.push(SEPARATOR) + name
    }
}

/// The path `name`, seen from the directory `base`.
pub fn join(base: &[u8], name: &str) -> (r: Vec<u8>)
    ensures
        r@ == below(base@, encode_utf8(name@)),
{
    let tail = name.as_bytes();
    if tail.len() > 0 && tail[0] == SEPARATOR {
        return slice_to_vec(tail);
    }
    let mut out = slice_to_vec(base);
    if base.len() > 0 && base[base.len() - 1] != SEPARATOR {
        out.push(SEPARATOR);
    }
    let mut rest = slice_to_vec(tail);
    out.append(&mut rest);
    out
}

/// A relative path keeps the directory in front of it and itself behind, with
/// one separator between the two: one that the directory ends with, or else a
/// further one. An absolute path is kept as it is, and so is one that is seen
/// from nowhere.
pub proof fn path_keeps_directory_and_name(base: Seq<u8>, name: Seq<u8>)
    ensures
        name.len() > 0 && name[0] == 47 ==> below(base, name) == name,
        base.len() == 0 ==> below(base, name) == name,
        !(name.len() > 0 && name[0] == 47) && base.len() > 0 ==> {
            let path = below(base, name);
            &&& base.len() < path.len() - name.len() + 1 <= base.len() + 2
            &&& path.take(base.len() as int) == base
            &&& path.skip(path.len() - name.len()) == name
            &&& path[path.len() - name.len() - 1] == 47
            &&& base.last() == 47 ==> path.len() == base.len() + name.len()
            &&& base.last() != 47 ==> path.len() == base.len() + 1 + name.len()
        },
{
}

/// Whether the bytes of `name` are its characters, and the first is no
/// separator.
pub open spec fn is_plain_name(name: Seq<char>) -> bool {
    name.len() > 0 && is_ascii_chars(name) && name[0] != '/'
}

/// A plain name is a relative path.
pub proof fn plain_name_is_relative(name: Seq<char>)
    requires
        is_plain_name(name),
    ensures
        encode_utf8(name).len() == name.len(),
        encode_utf8(name)[0] != 47,
{
    is_ascii_chars_encode_utf8(name);
    assert(name[0] as u8 == encode_utf8(name)[0]);
}

} // verus!
