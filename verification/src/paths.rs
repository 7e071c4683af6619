//! Paths of the file system, as the standard library holds them.
//!
//! A path is a row of bytes. What the library needs to know of one is stated
//! over those bytes, for Unix, where `/` alone separates components: the
//! program talks over Unix sockets and runs nowhere else.

use std::collections::hash_map::DefaultHasher;
use std::hash::Hash;
use std::path::{Path, PathBuf};
use vstd::prelude::*;
use vstd::utf8::{decode_utf8, encode_utf8, valid_utf8};

verus! {

/// `std::path::Path`, a borrowed path.
#[verifier::external_type_specification]
#[verifier::external_body]
pub struct ExPath(Path);

/// `std::path::PathBuf`, an owned path.
#[verifier::external_type_specification]
#[verifier::external_body]
pub struct ExPathBuf(PathBuf);

/// The bytes of a borrowed path.
pub uninterp spec fn path_bytes(path: &Path) -> Seq<u8>;

/// The bytes of an owned path.
pub uninterp spec fn path_buf_bytes(path: &PathBuf) -> Seq<u8>;

/// The byte that separates the components of a path.
pub open spec fn separator() -> u8 {
    0x2f
}

/// The byte that separates a file's name from its extension.
pub open spec fn dot() -> u8 {
    0x2e
}

/// The text of a path, where its bytes are UTF-8.
pub open spec fn path_text(bytes: Seq<u8>) -> Option<Seq<char>> {
    if valid_utf8(bytes) {
        Some(decode_utf8(bytes))
    } else {
        None
    }
}

/// Whether a path does not begin at the root.
pub open spec fn relative(bytes: Seq<u8>) -> bool {
    !(bytes.len() > 0 && bytes[0] == separator())
}

/// One component between two separators: none where nothing stands there, or
/// only a dot.
pub open spec fn component(part: Seq<u8>) -> Seq<Seq<u8>> {
    if part.len() == 0 || part == seq![dot()] {
        Seq::empty()
    } else {
        seq![part]
    }
}

/// The components between the separators of a path.
pub open spec fn names(bytes: Seq<u8>) -> Seq<Seq<u8>>
    decreases bytes.len(),
    via names_decreases
{
    if bytes.contains(separator()) {
        let i = bytes.index_of_first(separator()).unwrap();
        component(bytes.take(i)) + names(bytes.skip(i + 1))
    } else {
        component(bytes)
    }
}

#[via_fn]
proof fn names_decreases(bytes: Seq<u8>) {
    if bytes.contains(separator()) {
        bytes.index_of_first_ensures(separator());
    }
}

/// Whether a path begins with a dot that stands alone.
pub open spec fn begins_here(bytes: Seq<u8>) -> bool {
    bytes.len() > 0 && bytes[0] == dot() && (bytes.len() == 1 || bytes[1] == separator())
}

/// The components of a path, apart from the root: repeated separators, dots
/// that stand alone and separators at the end do not count, but a dot at the
/// beginning does.
pub open spec fn path_parts(bytes: Seq<u8>) -> Seq<Seq<u8>> {
    if begins_here(bytes) {
        seq![seq![dot()]] + names(bytes)
    } else {
        names(bytes)
    }
}

/// The last component of a path, if it is a name.
pub open spec fn file_name_bytes(bytes: Seq<u8>) -> Option<Seq<u8>> {
    let parts = names(bytes);
    if parts.len() == 0 || parts.last() == seq![dot(), dot()] {
        None
    } else {
        Some(parts.last())
    }
}

/// One path adjoined to another: an absolute one stands for itself.
pub open spec fn joined(dir: Seq<u8>, other: Seq<u8>) -> Seq<u8> {
    if !relative(other) {
        other
    } else if dir.len() == 0 || dir.last() == separator() {
        dir + other
    } else {
        entry_of(dir, other)
    }
}

/// `base` with an extension.
pub open spec fn dotted(base: Seq<u8>, extension: Seq<u8>) -> Seq<u8> {
    if extension.len() == 0 {
        base
    } else {
        base + seq![dot()] + extension
    }
}

/// `name` as an entry of the directory `dir`.
pub open spec fn entry_of(dir: Seq<u8>, name: Seq<u8>) -> Seq<u8> {
    dir + seq![separator()] + name
}

/// Whether `bytes` is not empty and ends neither in a separator nor in a dot.
pub open spec fn ends_in_name(bytes: Seq<u8>) -> bool {
    bytes.len() > 0 && bytes.last() != separator() && bytes.last() != dot()
}

/// Whether the last component of a path holds no dot.
pub open spec fn undotted_name(bytes: Seq<u8>) -> bool {
    &&& bytes.len() > 0
    &&& bytes.last() != separator()
    &&& forall|i: int|
        0 <= i < bytes.len() && #[trigger] bytes[i] == dot() ==> exists|j: int|
            i < j < bytes.len() && bytes[j] == separator()
}

/// `PathBuf::as_path`: the same bytes, borrowed.
pub assume_specification[ PathBuf::as_path ](path: &PathBuf) -> (borrowed: &Path)
    ensures
        path_bytes(borrowed) == path_buf_bytes(path),
;

/// `Path::new`: the bytes of the path are those of the text.
#[verifier::external_body]
pub(crate) fn path_of(text: &str) -> (path: &Path)
    ensures
        path_bytes(path) == encode_utf8(text@),
{
    Path::new(text)
}

/// `PathBuf::from`: the bytes of the path are those of the text.
#[verifier::external_body]
pub(crate) fn path_buf_of(text: String) -> (path: PathBuf)
    ensures
        path_buf_bytes(&path) == encode_utf8(text@),
{
    PathBuf::from(text)
}

/// `Path::to_str`: the text of the path, if its bytes are UTF-8.
#[verifier::external_body]
pub(crate) fn path_str(path: &Path) -> (text: Option<&str>)
    ensures
        match text {
            Some(s) => path_text(path_bytes(path)) == Some(s@),
            None => path_text(path_bytes(path)) is None,
        },
{
    path.to_str()
}

/// The text that stands for a path, with a replacement for what is not UTF-8.
pub uninterp spec fn path_lossy_text(bytes: Seq<u8>) -> Seq<char>;

/// `Path::to_string_lossy`: the text of a path whose bytes are UTF-8. Of
/// other paths nothing is claimed but that the bytes determine the text, and
/// that the text begins at the root if and only if the path does.
#[verifier::external_body]
pub(crate) fn path_lossy(path: &Path) -> (text: String)
    ensures
        text@ == path_lossy_text(path_bytes(path)),
        valid_utf8(path_bytes(path)) ==> text@ == decode_utf8(path_bytes(path)),
        relative(encode_utf8(text@)) == relative(path_bytes(path)),
{
    path.to_string_lossy().into_owned()
}

/// `Path::is_relative`: the path does not begin with a separator.
#[verifier::external_body]
pub(crate) fn path_is_relative(path: &Path) -> (answer: bool)
    ensures
        answer == relative(path_bytes(path)),
{
    path.is_relative()
}

/// The path without its last component, if it has one to lose.
pub uninterp spec fn parent_bytes(bytes: Seq<u8>) -> Option<Seq<u8>>;

/// `Path::parent`: there is none where the path has no components but the
/// root. Else it has the components of the path without the last one, and
/// begins at the root if the path does. For `dir/name` it is the directory.
#[verifier::external_body]
pub(crate) fn path_parent(path: &Path) -> (parent: Option<&Path>)
    ensures
        match parent {
            Some(dir) => {
                &&& parent_bytes(path_bytes(path)) == Some(path_bytes(dir))
                &&& path_parts(path_bytes(path)).len() > 0
                &&& path_parts(path_bytes(dir)) == path_parts(path_bytes(path)).drop_last()
                &&& relative(path_bytes(dir)) == relative(path_bytes(path))
            },
            None => parent_bytes(path_bytes(path)) is None && path_parts(path_bytes(path)).len()
                == 0,
        },
        forall|dir: Seq<u8>, name: Seq<u8>| #[trigger]
            entry_of(dir, name) == path_bytes(path) && ends_in_name(dir) && ends_in_name(name)
                && !name.contains(separator()) ==> match parent {
                Some(p) => path_bytes(p) == dir,
                None => false,
            },
{
    path.parent()
}

/// `Path::file_name`, as bytes: the last component, unless the path ends in
/// `..` or has no component but the root and a dot.
#[verifier::external_body]
pub(crate) fn path_file_name(path: &Path) -> (name: Option<Vec<u8>>)
    ensures
        match name {
            Some(n) => file_name_bytes(path_bytes(path)) == Some(n@),
            None => file_name_bytes(path_bytes(path)) is None,
        },
{
    path.file_name().map(|name| name.as_encoded_bytes().to_vec())
}

/// `Path::join`: an absolute path stands for itself, and a relative one comes
/// after the directory, with a separator between them where one is missing.
#[verifier::external_body]
pub(crate) fn path_join(dir: &Path, other: &Path) -> (path: PathBuf)
    ensures
        path_buf_bytes(&path) == joined(path_bytes(dir), path_bytes(other)),
{
    dir.join(other)
}

/// A path with another extension.
pub uninterp spec fn with_extension_bytes(bytes: Seq<u8>, extension: Seq<char>) -> Seq<u8>;

/// `Path::with_extension`: replaces what follows the last dot of the file's
/// name. It adds an extension to a name without one, and an empty extension
/// takes the old one away together with its dot.
#[verifier::external_body]
pub(crate) fn path_with_extension(path: &Path, extension: &str) -> (renamed: PathBuf)
    requires
        !extension@.contains('/'),
    ensures
        path_buf_bytes(&renamed) == with_extension_bytes(path_bytes(path), extension@),
        forall|base: Seq<u8>, old: Seq<u8>| #[trigger]
            dotted(base, old) == path_bytes(path) && ends_in_name(base) && old.len() > 0
                && !old.contains(separator()) && !old.contains(dot()) ==> path_buf_bytes(&renamed)
                == dotted(base, encode_utf8(extension@)),
        undotted_name(path_bytes(path)) ==> path_buf_bytes(&renamed) == dotted(
            path_bytes(path),
            encode_utf8(extension@),
        ),
{
    path.with_extension(extension)
}

/// What the hash of a path of these components feeds to a hasher, where the
/// largest `usize` is `max`.
pub uninterp spec fn path_hash_input(
    rooted: bool,
    parts: Seq<Seq<u8>>,
    max: nat,
) -> Seq<Seq<u8>>;

/// `<Path as Hash>::hash`: as it agrees with the equality of paths, what it
/// feeds to the hasher, the components of the path and the word size of the
/// machine determine. That another release of the standard library, or a
/// machine of another byte order, feeds the same is not claimed: viewer and
/// client are one program on one machine.
#[verifier::external_body]
pub(crate) fn path_hash(path: &Path, state: &mut DefaultHasher)
    ensures
        final(state)@ == old(state)@ + path_hash_input(
            !relative(path_bytes(path)),
            path_parts(path_bytes(path)),
            usize::MAX as nat,
        ),
{
    path.hash(state)
}

/// Only the empty path has no components and does not begin at the root.
pub(crate) proof fn lemma_no_components(bytes: Seq<u8>)
    requires
        relative(bytes),
        path_parts(bytes).len() == 0,
    ensures
        bytes.len() == 0,
{
    if bytes.len() > 0 {
        if bytes.contains(separator()) {
            bytes.index_of_first_ensures(separator());
            let i = bytes.index_of_first(separator()).unwrap();
            let first = bytes.take(i);
            assert(first[0] == bytes[0]);
            if first == seq![dot()] {
                assert(first.len() == 1);
            }
            assert(component(first).len() == 0);
        } else {
            assert(component(bytes).len() == 0);
        }
    }
}

proof fn lemma_names_of_both(a: Seq<u8>, b: Seq<u8>)
    ensures
        names(a + seq![separator()] + b) == names(a) + names(b),
    decreases a.len(),
{
    let whole = a + seq![separator()] + b;
    let n = a.len() as int;
    assert(whole[n] == separator());
    whole.index_of_first_ensures(separator());
    let k = whole.index_of_first(separator()).unwrap();
    if a.contains(separator()) {
        a.index_of_first_ensures(separator());
        let i = a.index_of_first(separator()).unwrap();
        assert(whole[i] == separator());
        assert(k == i) by {
            if k < i {
                assert(a[k] == whole[k]);
            }
        }
        lemma_names_of_both(a.skip(i + 1), b);
        assert(whole.take(i) == a.take(i));
        assert(whole.skip(i + 1) == a.skip(i + 1) + seq![separator()] + b);
        assert(names(whole) == names(a) + names(b));
    } else {
        assert(k == n) by {
            if k < n {
                assert(a[k] == whole[k]);
            }
        }
        assert(whole.take(k) == a);
        assert(whole.skip(k + 1) == b);
    }
}

/// Separators that are repeated, dots that stand alone within a path and
/// separators at its end are matters of spelling: the components stay the same,
/// and so does whether the path begins at the root.
pub proof fn law_spelling_keeps_the_components(a: Seq<u8>, b: Seq<u8>)
    ensures
        ({
            let plain = entry_of(a, b);
            let doubled = entry_of(a, entry_of(Seq::empty(), b));
            let detour = entry_of(a, entry_of(seq![dot()], b));
            let ended = entry_of(plain, Seq::empty());
            &&& path_parts(doubled) == path_parts(plain) && relative(doubled) == relative(plain)
            &&& path_parts(detour) == path_parts(plain) && relative(detour) == relative(plain)
            &&& path_parts(ended) == path_parts(plain) && relative(ended) == relative(plain)
        }),
{
    let none = Seq::<u8>::empty();
    let here = seq![dot()];
    let plain = entry_of(a, b);
    lemma_names_of_both(a, b);
    lemma_names_of_both(none, b);
    lemma_names_of_both(a, entry_of(none, b));
    lemma_names_of_both(here, b);
    lemma_names_of_both(a, entry_of(here, b));
    lemma_names_of_both(plain, none);
    assert(!none.contains(separator()) && !here.contains(separator()));
    assert(names(none) == Seq::<Seq<u8>>::empty());
    assert(names(here) == Seq::<Seq<u8>>::empty());
    assert(names(entry_of(a, entry_of(none, b))) == names(plain));
    assert(names(entry_of(a, entry_of(here, b))) == names(plain));
    assert(names(entry_of(plain, none)) == names(plain));
}

/// Whether `name` can be the name of an entry of a directory: some bytes
/// without a separator that are neither `.` nor `..`.
pub open spec fn is_entry_name(name: Seq<u8>) -> bool {
    &&& name.len() > 0
    &&& !name.contains(separator())
    &&& name != seq![dot()]
    &&& name != seq![dot(), dot()]
}

/// An entry of a directory has its own name, whatever the directory.
pub proof fn law_entry_keeps_its_name(dir: Seq<u8>, name: Seq<u8>)
    requires
        is_entry_name(name),
    ensures
        file_name_bytes(entry_of(dir, name)) == Some(name),
        file_name_bytes(name) == Some(name),
{
    lemma_names_of_both(dir, name);
    assert(names(name) == seq![name]);
    assert(names(entry_of(dir, name)).last() == name);
}

/// An entry of a directory has the components of the directory and one more,
/// its own name: no component is lost, at any depth.
pub proof fn law_entry_adds_a_component(dir: Seq<u8>, name: Seq<u8>)
    requires
        is_entry_name(name),
    ensures
        dir.len() > 0 ==> path_parts(entry_of(dir, name)) == path_parts(dir).push(name),
        dir.len() == 0 ==> path_parts(entry_of(dir, name)) == seq![name],
        dir.len() > 0 ==> relative(entry_of(dir, name)) == relative(dir),
        path_parts(name) == seq![name],
{
    lemma_names_of_both(dir, name);
    assert(names(name) == seq![name]);
    let whole = entry_of(dir, name);
    if dir.len() > 0 {
        assert(whole[0] == dir[0]);
        if dir.len() > 1 {
            assert(whole[1] == dir[1]);
        } else {
            assert(whole[1] == separator());
        }
        assert(begins_here(whole) == begins_here(dir));
        assert(path_parts(whole) == path_parts(dir).push(name));
    } else {
        assert(whole[0] == separator());
        assert(names(dir) == Seq::<Seq<u8>>::empty()) by {
            assert(!dir.contains(separator()));
        }
    }
    if begins_here(name) {
        if name.len() > 1 {
            assert(name[1] == separator());
        } else {
            assert(name == seq![dot()]);
        }
    }
}

/// Two entries of one directory, and entries of the same name in directories
/// with different components, have different components.
pub proof fn law_entries_differ(dir: Seq<u8>, name: Seq<u8>, other_dir: Seq<u8>, other: Seq<u8>)
    requires
        is_entry_name(name),
        is_entry_name(other),
        dir.len() > 0,
        other_dir.len() > 0,
        name != other || path_parts(dir) != path_parts(other_dir),
    ensures
        path_parts(entry_of(dir, name)) != path_parts(entry_of(other_dir, other)),
{
    law_entry_adds_a_component(dir, name);
    law_entry_adds_a_component(other_dir, other);
    let a = path_parts(dir).push(name);
    let b = path_parts(other_dir).push(other);
    if a == b {
        assert(a.last() == b.last());
        assert(a.drop_last() == path_parts(dir));
        assert(b.drop_last() == path_parts(other_dir));
    }
}

} // verus!
