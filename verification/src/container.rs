//! The pack container: a directory tree as one sequence of bytes.
//!
//! A container is the four bytes `FPK1`, the length of the root's name
//! (two bytes, little endian), the name, and then the entries one after the
//! other. An entry is a kind byte (0 for a directory, 1 for a file), the
//! length of its path (two bytes), the path relative to the root with `/`
//! between its segments and, for a file, the length of its content (eight
//! bytes) and the content. A directory stands before everything in it.

use vstd::bytes::*;
use vstd::prelude::*;
use vstd::slice::*;

verus! {

/// The bytes that every container starts with: `FPK1`.
pub open spec fn spec_magic() -> Seq<u8> {
    seq![0x46u8, 0x50u8, 0x4bu8, 0x31u8]
}

/// Length of the part of a container that stands before the root's name.
pub const PREAMBLE_LEN: usize = 6;

/// The byte between the segments of a path.
pub const SEPARATOR: u8 = 0x2f;

/// What an entry of a pack is.
#[derive(Clone, Copy, Debug, PartialEq, Eq, Structural)]
pub enum EntryKind {
    File,
    Directory,
}

/// Why a pack could not be written or read.
#[derive(Clone, Copy, Debug, PartialEq, Eq, Structural)]
pub enum PackError {
    /// The source of a pack is not a directory.
    NotADirectory,
    /// The directory to unpack into exists and is not empty.
    AlreadyExists,
    /// An entry cannot be written: its path is empty or too long, a
    /// directory has content, or its parent does not stand before it.
    InvalidEntry,
    /// The bytes are not a container.
    MalformedContainer,
}

/// One node of a directory tree.
#[derive(Clone, Debug, PartialEq, Eq)]
pub struct PackEntry {
    pub kind: EntryKind,
    pub path: Vec<u8>,
    pub content: Vec<u8>,
}

/// A directory tree: the name of its root and its nodes, parents first.
#[derive(Clone, Debug, PartialEq, Eq)]
pub struct Pack {
    pub root: Vec<u8>,
    pub entries: Vec<PackEntry>,
}

/// What stands in front of the content of an entry.
#[derive(Clone, Debug, PartialEq, Eq)]
pub struct EntryHeader {
    pub kind: EntryKind,
    pub path: Vec<u8>,
    pub content_len: u64,
}

/// An entry as contracts see it: its path and content as sequences of bytes.
pub struct EntryModel {
    pub kind: EntryKind,
    pub path: Seq<u8>,
    pub content: Seq<u8>,
}

/// A pack as contracts see it.
pub struct PackModel {
    pub root: Seq<u8>,
    pub entries: Seq<EntryModel>,
}

/// A header as contracts see it.
pub struct HeaderModel {
    pub kind: EntryKind,
    pub path: Seq<u8>,
    pub content_len: u64,
}

impl View for PackEntry {
    type V = EntryModel;

    open spec fn view(&self) -> EntryModel {
        EntryModel { kind: self.kind, path: self.path@, content: self.content@ }
    }
}

impl View for EntryHeader {
    type V = HeaderModel;

    open spec fn view(&self) -> HeaderModel {
        HeaderModel { kind: self.kind, path: self.path@, content_len: self.content_len }
    }
}

/// The models of a list of entries.
pub open spec fn spec_entries(entries: Seq<PackEntry>) -> Seq<EntryModel> {
    Seq::new(entries.len(), |i: int| entries[i]@)
}

impl View for Pack {
    type V = PackModel;

    open spec fn view(&self) -> PackModel {
        PackModel { root: self.root@, entries: spec_entries(self.entries@) }
    }
}

/// The byte that tells the kind of an entry.
pub open spec fn spec_kind_byte(kind: EntryKind) -> u8 {
    match kind {
        EntryKind::Directory => 0,
        EntryKind::File => 1,
    }
}

/// A header that the format can hold.
pub open spec fn spec_header_valid(header: HeaderModel) -> bool {
    &&& 1 <= header.path.len() <= u16::MAX
    &&& header.kind == EntryKind::Directory ==> header.content_len == 0
}

/// The header of an entry.
pub open spec fn spec_header_of(entry: EntryModel) -> HeaderModel {
    HeaderModel { kind: entry.kind, path: entry.path, content_len: entry.content.len() as u64 }
}

/// An entry that the format can hold.
pub open spec fn spec_entry_valid(entry: EntryModel) -> bool {
    &&& entry.content.len() <= u64::MAX
    &&& spec_header_valid(spec_header_of(entry))
}

/// The bytes of a header: the kind byte, the length of the path, the path
/// and, for a file, the length of the content.
pub open spec fn spec_encode_header(header: HeaderModel) -> Seq<u8> {
    seq![spec_kind_byte(header.kind)] + spec_u16_to_le_bytes(header.path.len() as u16)
        + header.path + if header.kind == EntryKind::File {
        spec_u64_to_le_bytes(header.content_len)
    } else {
        Seq::empty()
    }
}

/// The bytes of an entry: its header, then its content.
pub open spec fn spec_encode_entry(entry: EntryModel) -> Seq<u8> {
    spec_encode_header(spec_header_of(entry)) + entry.content
}

/// The bytes of a list of entries: those of each entry, in order.
pub open spec fn spec_encode_entries(entries: Seq<EntryModel>) -> Seq<u8>
    decreases entries.len(),
{
    if entries.len() == 0 {
        Seq::empty()
    } else {
        spec_encode_entry(entries[0]) + spec_encode_entries(entries.drop_first())
    }
}

/// The header at the start of `bytes` and its length, or `None` where the
/// bytes do not start with a header.
pub open spec fn spec_decode_header(bytes: Seq<u8>) -> Option<(HeaderModel, int)> {
    if bytes.len() < 3 || bytes[0] > 1 {
        None
    } else {
        let path_len = spec_u16_from_le_bytes(bytes.subrange(1, 3)) as int;
        if path_len == 0 || bytes.len() < 3 + path_len {
            None
        } else {
            let path = bytes.subrange(3, 3 + path_len);
            if bytes[0] == 0 {
                Some((HeaderModel { kind: EntryKind::Directory, path, content_len: 0 }, 3 + path_len))
            } else if bytes.len() < 11 + path_len {
                None
            } else {
                let content_len = spec_u64_from_le_bytes(
                    bytes.subrange(3 + path_len, 11 + path_len),
                );
                Some((HeaderModel { kind: EntryKind::File, path, content_len }, 11 + path_len))
            }
        }
    }
}

/// The entry at the start of `bytes` and its length, or `None` where the
/// bytes do not start with a whole entry.
pub open spec fn spec_decode_entry(bytes: Seq<u8>) -> Option<(EntryModel, int)> {
    match spec_decode_header(bytes) {
        None => None,
        Some((header, header_len)) => {
            let end = header_len + header.content_len;
            if bytes.len() < end {
                None
            } else {
                Some(
                    (
                        EntryModel {
                            kind: header.kind,
                            path: header.path,
                            content: bytes.subrange(header_len, end),
                        },
                        end,
                    ),
                )
            }
        },
    }
}

/// `first` in front of the entries that `rest` holds, if it holds any.
pub open spec fn spec_prepend_entries(first: Seq<EntryModel>, rest: Option<Seq<EntryModel>>) -> Option<
    Seq<EntryModel>,
> {
    match rest {
        Some(entries) => Some(first + entries),
        None => None,
    }
}

/// The entries that `bytes` are made of, or `None` where the bytes are not
/// whole entries one after the other.
pub open spec fn spec_decode_entries(bytes: Seq<u8>) -> Option<Seq<EntryModel>>
    decreases bytes.len(),
{
    if bytes.len() == 0 {
        Some(Seq::empty())
    } else {
        match spec_decode_entry(bytes) {
            Some((entry, used)) if 0 < used <= bytes.len() => spec_prepend_entries(
                seq![entry],
                spec_decode_entries(bytes.skip(used)),
            ),
            _ => None,
        }
    }
}

/// A pack is made of a directory, and of nothing else.
pub fn check_source(is_directory: bool) -> (r: Result<(), PackError>)
    ensures
        match r {
            Ok(_) => is_directory,
            Err(e) => !is_directory && e == PackError::NotADirectory,
        },
{
    if is_directory {
        Ok(())
    } else {
        Err(PackError::NotADirectory)
    }
}

/// A pack is unpacked into a directory that is not there yet or is empty,
/// or that may be overwritten.
pub fn check_target(present: bool, empty: bool, overwrite: bool) -> (r: Result<(), PackError>)
    ensures
        match r {
            Ok(_) => !present || empty || overwrite,
            Err(e) => present && !empty && !overwrite && e == PackError::AlreadyExists,
        },
{
    if present && !empty && !overwrite {
        Err(PackError::AlreadyExists)
    } else {
        Ok(())
    }
}

/// Appends the bytes of `src` to `out`.
fn append(out: &mut Vec<u8>, src: &[u8])
    ensures
        final(out)@ == old(out)@ + src@,
{
    out.extend_from_slice(src);
    assert(out@ =~= old(out)@ + src@);
}

/// Writes the header of an entry. The path must be between 1 and 65535
/// bytes long, and a directory has no content.
pub fn encode_header(kind: EntryKind, path: &[u8], content_len: u64) -> (r: Result<
    Vec<u8>,
    PackError,
>)
    ensures
        match r {
            Ok(bytes) => {
                &&& spec_header_valid(HeaderModel { kind, path: path@, content_len })
                &&& bytes@ == spec_encode_header(HeaderModel { kind, path: path@, content_len })
            },
            Err(e) => !spec_header_valid(HeaderModel { kind, path: path@, content_len }) && e
                == PackError::InvalidEntry,
        },
{
    let path_len = path.len();
    if path_len == 0 || path_len > 0xffff {
        return Err(PackError::InvalidEntry);
    }
    let mut out: Vec<u8> = Vec::new();
    match kind {
        EntryKind::Directory => {
            if content_len != 0 {
                return Err(PackError::InvalidEntry);
            }
            out.push(0u8);
            append(&mut out, u16_to_le_bytes(path_len as u16).as_slice());
            append(&mut out, path);
        },
        EntryKind::File => {
            out.push(1u8);
            append(&mut out, u16_to_le_bytes(path_len as u16).as_slice());
            append(&mut out, path);
            append(&mut out, u64_to_le_bytes(content_len).as_slice());
        },
    }
    assert(out@ =~= spec_encode_header(HeaderModel { kind, path: path@, content_len }));
    Ok(out)
}

/// Reads the header that starts at `pos`, and says how long it is.
pub fn decode_header(bytes: &[u8], pos: usize) -> (r: Result<(EntryHeader, usize), PackError>)
    requires
        pos <= bytes@.len(),
    ensures
        match r {
            Ok((header, header_len)) => {
                &&& spec_decode_header(bytes@.skip(pos as int)) == Some(
                    (header@, header_len as int),
                )
                &&& pos + header_len <= bytes@.len()
            },
            Err(e) => spec_decode_header(bytes@.skip(pos as int)) is None && e
                == PackError::MalformedContainer,
        },
{
    let ghost rest = bytes@.skip(pos as int);
    let avail = bytes.len() - pos;
    if avail < 3 {
        return Err(PackError::MalformedContainer);
    }
    let kind_byte = bytes[pos];
    assert(kind_byte == rest[0]);
    if kind_byte > 1 {
        return Err(PackError::MalformedContainer);
    }
    let len_bytes = slice_subrange(bytes, pos + 1, pos + 3);
    assert(len_bytes@ =~= rest.subrange(1, 3));
    let path_len = u16_from_le_bytes(len_bytes) as usize;
    if path_len == 0 || avail - 3 < path_len {
        return Err(PackError::MalformedContainer);
    }
    let path_bytes = slice_subrange(bytes, pos + 3, pos + 3 + path_len);
    assert(path_bytes@ =~= rest.subrange(3, 3 + path_len));
    let path = slice_to_vec(path_bytes);
    if kind_byte == 0 {
        return Ok((EntryHeader { kind: EntryKind::Directory, path, content_len: 0 }, 3 + path_len));
    }
    if avail - 3 - path_len < 8 {
        return Err(PackError::MalformedContainer);
    }
    let content_len_bytes = slice_subrange(bytes, pos + 3 + path_len, pos + 11 + path_len);
    assert(content_len_bytes@ =~= rest.subrange(3 + path_len, 11 + path_len));
    let content_len = u64_from_le_bytes(content_len_bytes);
    Ok((EntryHeader { kind: EntryKind::File, path, content_len }, 11 + path_len))
}

/// Reads the entry that starts at `pos`, and says how long it is.
pub fn decode_entry(bytes: &[u8], pos: usize) -> (r: Result<(PackEntry, usize), PackError>)
    requires
        pos <= bytes@.len(),
    ensures
        match r {
            Ok((entry, used)) => {
                &&& spec_decode_entry(bytes@.skip(pos as int)) == Some((entry@, used as int))
                &&& 0 < used
                &&& pos + used <= bytes@.len()
            },
            Err(e) => spec_decode_entry(bytes@.skip(pos as int)) is None && e
                == PackError::MalformedContainer,
        },
{
    let ghost rest = bytes@.skip(pos as int);
    match decode_header(bytes, pos) {
        Err(e) => Err(e),
        Ok((header, header_len)) => {
            let avail = bytes.len() - pos - header_len;
            if header.content_len > avail as u64 {
                return Err(PackError::MalformedContainer);
            }
            let content_len = header.content_len as usize;
            let start = pos + header_len;
            let content_bytes = slice_subrange(bytes, start, start + content_len);
            assert(content_bytes@ =~= rest.subrange(
                header_len as int,
                header_len + header.content_len,
            ));
            let content = slice_to_vec(content_bytes);
            Ok((PackEntry { kind: header.kind, path: header.path, content }, header_len + content_len))
        },
    }
}

/// Writes an entry: its header and its content.
pub fn encode_entry(entry: &PackEntry) -> (r: Result<Vec<u8>, PackError>)
    ensures
        match r {
            Ok(bytes) => spec_entry_valid(entry@) && bytes@ == spec_encode_entry(entry@),
            Err(e) => !spec_entry_valid(entry@) && e == PackError::InvalidEntry,
        },
{
    let content_len = entry.content.len() as u64;
    match encode_header(entry.kind, entry.path.as_slice(), content_len) {
        Ok(mut bytes) => {
            append(&mut bytes, entry.content.as_slice());
            Ok(bytes)
        },
        Err(e) => Err(e),
    }
}

/// Reads the entries that stand from `start` to the end of `bytes`.
pub fn decode_entries(bytes: &[u8], start: usize) -> (r: Result<Vec<PackEntry>, PackError>)
    requires
        start <= bytes@.len(),
    ensures
        match r {
            Ok(entries) => spec_decode_entries(bytes@.skip(start as int)) == Some(
                spec_entries(entries@),
            ),
            Err(e) => spec_decode_entries(bytes@.skip(start as int)) is None && e
                == PackError::MalformedContainer,
        },
{
    let mut entries: Vec<PackEntry> = Vec::new();
    let mut pos = start;
    proof {
        let all = spec_decode_entries(bytes@.skip(start as int));
        if all is Some {
            assert(spec_entries(entries@) + all->0 =~= all->0);
        }
    }
    while pos < bytes.len()
        invariant
            start <= pos <= bytes@.len(),
            spec_decode_entries(bytes@.skip(start as int)) == spec_prepend_entries(
                spec_entries(entries@),
                spec_decode_entries(bytes@.skip(pos as int)),
            ),
        decreases bytes@.len() - pos,
    {
        let ghost rest = bytes@.skip(pos as int);
        let ghost before = spec_entries(entries@);
        match decode_entry(bytes, pos) {
            Err(e) => {
                return Err(e);
            },
            Ok((entry, used)) => {
                proof {
                    assert(rest.skip(used as int) =~= bytes@.skip(pos + used));
                    let tail = spec_decode_entries(rest.skip(used as int));
                    assert(spec_entries(entries@.push(entry)) =~= before + seq![entry@]);
                    if tail is Some {
                        assert(before + (seq![entry@] + tail->0) =~= (before + seq![entry@])
                            + tail->0);
                    }
                }
                entries.push(entry);
                pos += used;
            },
        }
    }
    assert(spec_entries(entries@) + Seq::<EntryModel>::empty() =~= spec_entries(entries@));
    Ok(entries)
}

/// Index of the last separator of a path, or -1 where it has none.
pub open spec fn spec_last_separator(path: Seq<u8>) -> int
    decreases path.len(),
{
    if path.len() == 0 {
        -1
    } else if path.last() == SEPARATOR {
        path.len() - 1
    } else {
        spec_last_separator(path.drop_last())
    }
}

/// The path of the directory that holds `path`, or `None` where that is
/// the root.
pub open spec fn spec_parent(path: Seq<u8>) -> Option<Seq<u8>> {
    let at = spec_last_separator(path);
    if at < 0 {
        None
    } else {
        Some(path.take(at))
    }
}

/// The directory that holds the `i`-th entry is the root, or an entry that
/// stands before it.
pub open spec fn spec_parent_before(entries: Seq<EntryModel>, i: int) -> bool {
    match spec_parent(entries[i].path) {
        None => true,
        Some(parent) => exists|j: int|
            #![trigger entries[j]]
            0 <= j < i && entries[j].kind == EntryKind::Directory && entries[j].path == parent,
    }
}

/// Every entry stands after the directory that holds it.
pub open spec fn spec_parents_first(entries: Seq<EntryModel>) -> bool {
    forall|i: int| 0 <= i < entries.len() ==> #[trigger] spec_parent_before(entries, i)
}

/// A pack that the format can hold.
pub open spec fn spec_pack_valid(pack: PackModel) -> bool {
    &&& pack.root.len() <= u16::MAX
    &&& forall|i: int| 0 <= i < pack.entries.len() ==> spec_entry_valid(#[trigger] pack.entries[i])
    &&& spec_parents_first(pack.entries)
}

/// The bytes of a container: the magic bytes, the length of the root's
/// name, the name, and the entries.
pub open spec fn spec_encode_pack(pack: PackModel) -> Seq<u8> {
    spec_magic() + spec_u16_to_le_bytes(pack.root.len() as u16) + pack.root + spec_encode_entries(
        pack.entries,
    )
}

/// The pack that `bytes` hold, or `None` where they are not a container
/// whose entries stand parents first.
pub open spec fn spec_decode_pack(bytes: Seq<u8>) -> Option<PackModel> {
    if bytes.len() < PREAMBLE_LEN || bytes.take(4) != spec_magic() {
        None
    } else {
        let root_len = spec_u16_from_le_bytes(bytes.subrange(4, 6)) as int;
        if bytes.len() < PREAMBLE_LEN + root_len {
            None
        } else {
            match spec_decode_entries(bytes.skip(PREAMBLE_LEN + root_len)) {
                Some(entries) if spec_parents_first(entries) => Some(
                    PackModel { root: bytes.subrange(PREAMBLE_LEN as int, PREAMBLE_LEN + root_len), entries },
                ),
                _ => None,
            }
        }
    }
}

/// Whether two byte strings are the same.
pub fn bytes_equal(a: &[u8], b: &[u8]) -> (same: bool)
    ensures
        same == (a@ == b@),
{
    if a.len() != b.len() {
        return false;
    }
    let mut i: usize = 0;
    while i < a.len()
        invariant
            i <= a@.len(),
            a@.len() == b@.len(),
            forall|k: int| 0 <= k < i ==> a@[k] == b@[k],
        decreases a@.len() - i,
    {
        if a[i] != b[i] {
            return false;
        }
        i += 1;
    }
    assert(a@ =~= b@);
    true
}

/// Index of the last separator of a path.
pub fn last_separator(path: &[u8]) -> (at: Option<usize>)
    ensures
        match at {
            Some(i) => spec_last_separator(path@) == i && i < path@.len(),
            None => spec_last_separator(path@) == -1,
        },
{
    let mut i = path.len();
    assert(path@.take(i as int) =~= path@);
    while i > 0
        invariant
            i <= path@.len(),
            spec_last_separator(path@) == spec_last_separator(path@.take(i as int)),
        decreases i,
    {
        if path[i - 1] == SEPARATOR {
            return Some(i - 1);
        }
        assert(path@.take(i as int).drop_last() =~= path@.take(i - 1));
        i -= 1;
    }
    None
}

/// Whether the directory that holds the `i`-th entry stands before it.
pub fn parent_before(entries: &Vec<PackEntry>, i: usize) -> (found: bool)
    requires
        i < entries@.len(),
    ensures
        found == spec_parent_before(spec_entries(entries@), i as int),
{
    let path = entries[i].path.as_slice();
    match last_separator(path) {
        None => true,
        Some(at) => {
            let parent = slice_subrange(path, 0, at);
            let ghost models = spec_entries(entries@);
            assert(spec_parent(models[i as int].path) == Some(parent@));
            let mut j: usize = 0;
            while j < i
                invariant
                    j <= i < entries@.len(),
                    models == spec_entries(entries@),
                    spec_parent(models[i as int].path) == Some(parent@),
                    forall|k: int|
                        #![trigger models[k]]
                        0 <= k < j ==> !(models[k].kind == EntryKind::Directory && models[k].path
                            == parent@),
                decreases i - j,
            {
                let candidate = &entries[j];
                if candidate.kind == EntryKind::Directory && bytes_equal(
                    candidate.path.as_slice(),
                    parent,
                ) {
                    assert(models[j as int].kind == EntryKind::Directory && models[j as int].path
                        == parent@);
                    return true;
                }
                j += 1;
            }
            false
        },
    }
}

/// Whether every entry stands after the directory that holds it.
pub fn parents_first(entries: &Vec<PackEntry>) -> (ordered: bool)
    ensures
        ordered == spec_parents_first(spec_entries(entries@)),
{
    let mut i: usize = 0;
    while i < entries.len()
        invariant
            i <= entries@.len(),
            forall|k: int|
                0 <= k < i ==> #[trigger] spec_parent_before(spec_entries(entries@), k),
        decreases entries@.len() - i,
    {
        if !parent_before(entries, i) {
            return false;
        }
        i += 1;
    }
    true
}

/// Writes a pack as a container.
pub fn encode_pack(pack: &Pack) -> (r: Result<Vec<u8>, PackError>)
    ensures
        match r {
            Ok(bytes) => spec_pack_valid(pack@) && bytes@ == spec_encode_pack(pack@),
            Err(e) => !spec_pack_valid(pack@) && e == PackError::InvalidEntry,
        },
{
    let root_len = pack.root.len();
    if root_len > 0xffff || !parents_first(&pack.entries) {
        return Err(PackError::InvalidEntry);
    }
    let mut out: Vec<u8> = Vec::new();
    out.push(0x46u8);
    out.push(0x50u8);
    out.push(0x4bu8);
    out.push(0x31u8);
    append(&mut out, u16_to_le_bytes(root_len as u16).as_slice());
    append(&mut out, pack.root.as_slice());
    let ghost models = pack@.entries;
    let ghost preamble = spec_magic() + spec_u16_to_le_bytes(pack.root@.len() as u16) + pack.root@;
    assert(out@ =~= preamble + spec_encode_entries(models.take(0)));
    let mut i: usize = 0;
    while i < pack.entries.len()
        invariant
            i <= pack.entries@.len(),
            models == spec_entries(pack.entries@),
            forall|k: int| 0 <= k < i ==> spec_entry_valid(#[trigger] models[k]),
            out@ == preamble + spec_encode_entries(models.take(i as int)),
        decreases pack.entries@.len() - i,
    {
        match encode_entry(&pack.entries[i]) {
            Err(e) => {
                assert(!spec_entry_valid(models[i as int]));
                return Err(e);
            },
            Ok(bytes) => {
                proof {
                    lemma_encode_entries_push(models.take(i as int), models[i as int]);
                    assert(models.take(i as int).push(models[i as int]) =~= models.take(i + 1));
                    assert((preamble + spec_encode_entries(models.take(i as int))) + bytes@
                        =~= preamble + (spec_encode_entries(models.take(i as int)) + bytes@));
                }
                append(&mut out, bytes.as_slice());
            },
        }
        i += 1;
    }
    assert(models.take(i as int) =~= models);
    Ok(out)
}

/// Reads a container.
pub fn decode_pack(bytes: &[u8]) -> (r: Result<Pack, PackError>)
    ensures
        match r {
            Ok(pack) => spec_decode_pack(bytes@) == Some(pack@),
            Err(e) => spec_decode_pack(bytes@) is None && e == PackError::MalformedContainer,
        },
{
    if bytes.len() < PREAMBLE_LEN {
        return Err(PackError::MalformedContainer);
    }
    if bytes[0] != 0x46u8 || bytes[1] != 0x50u8 || bytes[2] != 0x4bu8 || bytes[3] != 0x31u8 {
        assert(bytes@.take(4)[0] == bytes@[0] && bytes@.take(4)[1] == bytes@[1] && bytes@.take(
            4,
        )[2] == bytes@[2] && bytes@.take(4)[3] == bytes@[3]);
        return Err(PackError::MalformedContainer);
    }
    assert(bytes@.take(4) =~= spec_magic());
    let root_len = u16_from_le_bytes(slice_subrange(bytes, 4, 6)) as usize;
    if bytes.len() - PREAMBLE_LEN < root_len {
        return Err(PackError::MalformedContainer);
    }
    let root = slice_to_vec(slice_subrange(bytes, PREAMBLE_LEN, PREAMBLE_LEN + root_len));
    match decode_entries(bytes, PREAMBLE_LEN + root_len) {
        Err(e) => Err(e),
        Ok(entries) => {
            if !parents_first(&entries) {
                return Err(PackError::MalformedContainer);
            }
            Ok(Pack { root, entries })
        },
    }
}

/// The encoding of a list of entries with one more at its end is the
/// encoding of the list followed by the encoding of that entry.
pub proof fn lemma_encode_entries_push(entries: Seq<EntryModel>, entry: EntryModel)
    ensures
        spec_encode_entries(entries.push(entry)) == spec_encode_entries(entries)
            + spec_encode_entry(entry),
    decreases entries.len(),
{
    let longer = entries.push(entry);
    if entries.len() == 0 {
        assert(longer.drop_first() =~= entries);
        assert(spec_encode_entries(longer) =~= spec_encode_entries(entries) + spec_encode_entry(
            entry,
        ));
    } else {
        lemma_encode_entries_push(entries.drop_first(), entry);
        assert(longer.drop_first() =~= entries.drop_first().push(entry));
        assert(spec_encode_entries(longer) =~= spec_encode_entries(entries) + spec_encode_entry(
            entry,
        ));
    }
}

/// Reading what was written for a valid entry gives the entry back,
/// whatever follows it.
pub proof fn lemma_entry_round_trip(entry: EntryModel, tail: Seq<u8>)
    requires
        spec_entry_valid(entry),
    ensures
        spec_decode_entry(spec_encode_entry(entry) + tail) == Some(
            (entry, spec_encode_entry(entry).len() as int),
        ),
        spec_encode_entry(entry).len() > 0,
{
    lemma_auto_spec_u16_to_from_le_bytes();
    lemma_auto_spec_u64_to_from_le_bytes();
    let header = spec_header_of(entry);
    let path_len = entry.path.len() as int;
    let bytes = spec_encode_entry(entry) + tail;
    assert(bytes[0] == spec_kind_byte(entry.kind));
    assert(bytes.subrange(1, 3) =~= spec_u16_to_le_bytes(path_len as u16));
    assert(bytes.subrange(3, 3 + path_len) =~= entry.path);
    if entry.kind == EntryKind::File {
        assert(bytes.subrange(3 + path_len, 11 + path_len) =~= spec_u64_to_le_bytes(
            header.content_len,
        ));
        assert(bytes.subrange(11 + path_len, 11 + path_len + entry.content.len()) =~= entry.content);
    } else {
        assert(bytes.subrange(3 + path_len, 3 + path_len) =~= entry.content);
    }
}

/// Reading what was written for valid entries gives the entries back.
pub proof fn lemma_entries_round_trip(entries: Seq<EntryModel>)
    requires
        forall|i: int| 0 <= i < entries.len() ==> spec_entry_valid(#[trigger] entries[i]),
    ensures
        spec_decode_entries(spec_encode_entries(entries)) == Some(entries),
    decreases entries.len(),
{
    if entries.len() > 0 {
        let first = entries[0];
        let rest = entries.drop_first();
        let tail = spec_encode_entries(rest);
        let bytes = spec_encode_entries(entries);
        assert(spec_entry_valid(first));
        lemma_entry_round_trip(first, tail);
        assert forall|i: int| 0 <= i < rest.len() implies spec_entry_valid(#[trigger] rest[i]) by {
            assert(rest[i] == entries[i + 1]);
        }
        lemma_entries_round_trip(rest);
        assert(bytes.skip(spec_encode_entry(first).len() as int) =~= tail);
        assert(seq![first] + rest =~= entries);
    }
}

/// Reading the container of a valid pack gives the pack back: the same
/// root, the same paths in the same order, and the same contents.
pub proof fn lemma_pack_round_trip(pack: PackModel)
    requires
        spec_pack_valid(pack),
    ensures
        spec_decode_pack(spec_encode_pack(pack)) == Some(pack),
{
    lemma_auto_spec_u16_to_from_le_bytes();
    lemma_entries_round_trip(pack.entries);
    let bytes = spec_encode_pack(pack);
    let root_len = pack.root.len() as int;
    assert(bytes.take(4) =~= spec_magic());
    assert(bytes.subrange(4, 6) =~= spec_u16_to_le_bytes(root_len as u16));
    assert(bytes.subrange(PREAMBLE_LEN as int, PREAMBLE_LEN + root_len) =~= pack.root);
    assert(bytes.skip(PREAMBLE_LEN + root_len) =~= spec_encode_entries(pack.entries));
}

/// What is read is valid: every entry that comes out of a list of entries
/// can be written again.
pub proof fn lemma_decoded_entries_valid(bytes: Seq<u8>)
    requires
        spec_decode_entries(bytes) is Some,
    ensures
        forall|i: int|
            0 <= i < spec_decode_entries(bytes)->0.len() ==> spec_entry_valid(
                #[trigger] spec_decode_entries(bytes)->0[i],
            ),
    decreases bytes.len(),
{
    if bytes.len() > 0 {
        let (first, used) = spec_decode_entry(bytes)->0;
        let rest = spec_decode_entries(bytes.skip(used))->0;
        lemma_decoded_entries_valid(bytes.skip(used));
        let entries = spec_decode_entries(bytes)->0;
        assert(entries == seq![first] + rest);
        assert(spec_entry_valid(first));
        assert forall|i: int| 0 <= i < entries.len() implies spec_entry_valid(
            #[trigger] entries[i],
        ) by {
            if i > 0 {
                assert(entries[i] == rest[i - 1]);
            }
        }
    }
}

/// A pack that comes out of a container is valid: it can be written again.
pub proof fn lemma_decoded_pack_valid(bytes: Seq<u8>)
    requires
        spec_decode_pack(bytes) is Some,
    ensures
        spec_pack_valid(spec_decode_pack(bytes)->0),
{
    let root_len = spec_u16_from_le_bytes(bytes.subrange(4, 6)) as int;
    lemma_decoded_entries_valid(bytes.skip(PREAMBLE_LEN + root_len));
}

} // verus!
