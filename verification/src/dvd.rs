//! The game's disc as a GCFS archive: a 20-byte little-endian header
//! (`GCFS`, version, file count, table offset), a table of contents with
//! each file's path and the place and sizes of its zstd-compressed data,
//! and open-file handles that read decompressed bytes into guest memory.
use vstd::prelude::*;
use std::collections::HashMap;
use crate::memory::{MemoryError, MemoryManager, MemoryState, ram_offset, ram_write_outcome};
use crate::text::{append_dec, append_hex, dec_nat};
use crate::chars::{chars_of, slice_chars, string_of};
use crate::codegen::emit::hex8;
use crate::codecs::{zstd_decode, zstd_decompressed};

verus! {

broadcast use vstd::std_specs::hash::group_hash_axioms;

/// What `String::from_utf8_lossy` makes of bytes.
pub uninterp spec fn utf8_lossy_text(b: Seq<u8>) -> Seq<char>;

/// What `str::to_lowercase` makes of a text.
pub uninterp spec fn lowercase_text(s: Seq<char>) -> Seq<char>;

/// Whether every byte is ASCII.
pub open spec fn ascii_bytes(b: Seq<u8>) -> bool {
    forall|i: int| 0 <= i < b.len() ==> b[i] < 128
}

/// Whether every character is ASCII.
pub open spec fn ascii_text(s: Seq<char>) -> bool {
    forall|i: int| 0 <= i < s.len() ==> (s[i] as u32) < 128
}

/// The text of bytes: for ASCII bytes, one character per byte; otherwise
/// what `String::from_utf8_lossy` makes of them.
pub open spec fn bytes_text(b: Seq<u8>) -> Seq<char> {
    if ascii_bytes(b) {
        b.map_values(|x: u8| x as char)
    } else {
        utf8_lossy_text(b)
    }
}

/// The lowercase form of an ASCII letter; other characters as they are.
pub open spec fn ascii_lower(c: char) -> char {
    if 'A' <= c && c <= 'Z' {
        ((c as u32) + 32) as char
    } else {
        c
    }
}

/// The lowercase form of a text: for ASCII text, each letter lowered;
/// otherwise what `str::to_lowercase` makes of it.
pub open spec fn lowered(s: Seq<char>) -> Seq<char> {
    if ascii_text(s) {
        s.map_values(|c: char| ascii_lower(c))
    } else {
        lowercase_text(s)
    }
}

/// The text of bytes, invalid UTF-8 sequences replaced
/// (`String::from_utf8_lossy`); a function of the bytes alone. ASCII bytes
/// are valid UTF-8 and give one character each.
#[verifier::external_body]
pub(crate) fn utf8_lossy(b: &[u8]) -> (s: String)
    ensures
        s@ == utf8_lossy_text(b@),
        ascii_bytes(b@) ==> s@ == b@.map_values(|x: u8| x as char),
{
    String::from_utf8_lossy(b).into_owned()
}

/// The lowercase form of a text (`str::to_lowercase`); a function of the
/// text alone. On ASCII text it lowers exactly the letters `A` to `Z`.
#[verifier::external_body]
fn to_lowercase(s: &str) -> (l: String)
    ensures
        l@ == lowercase_text(s@),
        ascii_text(s@) ==> l@ == s@.map_values(|c: char| ascii_lower(c)),
{
    s.to_lowercase()
}


/// Where a file's compressed data lies and how large it is unpacked.
#[derive(Debug, Clone, Copy, PartialEq, Eq, Structural)]
pub struct TocEntry {
    pub data_offset: usize,
    pub compressed_size: usize,
    pub decompressed_size: usize,
}

impl View for TocEntry {
    type V = TocEntry;

    open spec fn view(&self) -> TocEntry {
        *self
    }
}

/// An open file: its path in the table and its length.
pub struct OpenFile {
    pub path: String,
    pub length: u32,
}

/// Little-endian value of two bytes at `p`.
pub open spec fn le_u16_at(b: Seq<u8>, p: int) -> u16 {
    (b[p] as u16) | ((b[p + 1] as u16) << 8u16)
}

/// Little-endian value of four bytes at `p`.
pub open spec fn le_u32_at(b: Seq<u8>, p: int) -> u32 {
    (b[p] as u32) | ((b[p + 1] as u32) << 8u32) | ((b[p + 2] as u32) << 16u32) | ((b[p + 3] as u32)
        << 24u32)
}

/// Little-endian value of eight bytes at `p`.
pub open spec fn le_u64_at(b: Seq<u8>, p: int) -> u64 {
    (b[p] as u64) | ((b[p + 1] as u64) << 8u64) | ((b[p + 2] as u64) << 16u64) | ((b[p + 3] as u64)
        << 24u64) | ((b[p + 4] as u64) << 32u64) | ((b[p + 5] as u64) << 40u64) | ((b[p
        + 6] as u64) << 48u64) | ((b[p + 7] as u64) << 56u64)
}

/// Prepends entries to a parse result.
pub open spec fn prepend(
    s: Seq<(Seq<char>, TocEntry)>,
    r: Result<Seq<(Seq<char>, TocEntry)>, Seq<char>>,
) -> Result<Seq<(Seq<char>, TocEntry)>, Seq<char>> {
    match r {
        Ok(t) => Ok(s + t),
        Err(e) => Err(e),
    }
}

/// The `count` table entries from byte `pos` on: each a little-endian
/// 16-bit path length, the path, and three 64-bit values (data offset,
/// compressed size, decompressed size).
pub open spec fn toc_from(a: Seq<u8>, pos: int, count: nat) -> Result<Seq<(Seq<char>, TocEntry)>, Seq<char>>
    decreases count,
{
    if count == 0 {
        Ok(seq![])
    } else if pos + 2 > a.len() {
        Err("GCFS TOC truncated (path_len)."@)
    } else {
        let plen = le_u16_at(a, pos) as int;
        let p1 = pos + 2;
        if p1 + plen > a.len() {
            Err("GCFS TOC truncated (path)."@)
        } else {
            let p2 = p1 + plen;
            if p2 + 24 > a.len() {
                Err("GCFS TOC truncated (offsets)."@)
            } else {
                let entry = TocEntry {
                    data_offset: le_u64_at(a, p2) as usize,
                    compressed_size: le_u64_at(a, p2 + 8) as usize,
                    decompressed_size: le_u64_at(a, p2 + 16) as usize,
                };
                prepend(
                    seq![(bytes_text(a.subrange(p1, p2)), entry)],
                    toc_from(a, p2 + 24, (count - 1) as nat),
                )
            }
        }
    }
}

/// The table of an archive, or why it is refused. An empty archive has an
/// empty table.
pub open spec fn archive_toc(a: Seq<u8>) -> Result<Seq<(Seq<char>, TocEntry)>, Seq<char>> {
    if a.len() == 0 {
        Ok(seq![])
    } else if a.len() < 20 {
        Err("GCFS archive too small for header."@)
    } else if !(a[0] == 0x47 && a[1] == 0x43 && a[2] == 0x46 && a[3] == 0x53) {
        Err("Invalid GCFS magic."@)
    } else if le_u64_at(a, 12) as usize > a.len() {
        Err(
            "GCFS TOC offset "@ + dec_nat((le_u64_at(a, 12) as usize) as nat)
                + " exceeds archive size "@ + dec_nat(a.len()) + "."@,
        )
    } else {
        toc_from(a, (le_u64_at(a, 12) as usize) as int, le_u32_at(a, 8) as nat)
    }
}

/// The value stored for `key` by a list of pairs, a later pair replacing an
/// earlier one.
pub open spec fn lookup<V>(s: Seq<(Seq<char>, V)>, key: Seq<char>) -> Option<V>
    decreases s.len(),
{
    if s.len() == 0 {
        None
    } else if s.last().0 == key {
        Some(s.last().1)
    } else {
        lookup(s.drop_last(), key)
    }
}

/// Keys occur at most once.
pub open spec fn unique_keys<V>(s: Seq<(Seq<char>, V)>) -> bool {
    forall|i: int, j: int| 0 <= i < j < s.len() ==> s[i].0 != s[j].0
}

/// `s` with `key` set to `v`: replaced in place, or appended.
pub open spec fn store<V>(s: Seq<(Seq<char>, V)>, key: Seq<char>, v: V) -> Seq<(Seq<char>, V)> {
    if exists|i: int| 0 <= i < s.len() && s[i].0 == key {
        s.update(choose|i: int| 0 <= i < s.len() && s[i].0 == key, (key, v))
    } else {
        s.push((key, v))
    }
}

/// The table as the archive's entries leave it, later paths replacing
/// earlier ones.
pub open spec fn table_of(entries: Seq<(Seq<char>, TocEntry)>) -> Seq<(Seq<char>, TocEntry)>
    decreases entries.len(),
{
    if entries.len() == 0 {
        seq![]
    } else {
        store(table_of(entries.drop_last()), entries.last().0, entries.last().1)
    }
}

/// A path with one leading `/` removed.
pub open spec fn normalized_path(p: Seq<char>) -> Seq<char> {
    if p.len() > 0 && p[0] == '/' {
        p.skip(1)
    } else {
        p
    }
}

/// The first key of the table whose lowercase form equals `lower`.
pub open spec fn first_folded(keys: Seq<Seq<char>>, lower: Seq<char>, n: int) -> Option<Seq<char>>
    decreases n,
{
    if n <= 0 || n > keys.len() {
        None
    } else {
        match first_folded(keys, lower, n - 1) {
            Some(k) => Some(k),
            None => if lowered(keys[n - 1]) == lower {
                Some(keys[n - 1])
            } else {
                None
            },
        }
    }
}

/// The table key a path names: the normalized path itself, else the first
/// key equal to it ignoring case.
pub open spec fn resolve(table: Seq<(Seq<char>, TocEntry)>, path: Seq<char>) -> Option<Seq<char>> {
    let n = normalized_path(path);
    if lookup(table, n) is Some {
        Some(n)
    } else {
        let keys = table.map_values(|e: (Seq<char>, TocEntry)| e.0);
        first_folded(keys, lowered(n), keys.len() as int)
    }
}

/// A read-only filesystem over an archive.
pub struct VirtualFilesystem {
    archive: &'static [u8],
    toc: Vec<(String, TocEntry)>,
    file_cache: Vec<(String, Vec<u8>)>,
    open_files: HashMap<u32, OpenFile>,
    next_handle: u32,
}

impl VirtualFilesystem {
    /// The archive's bytes.
    pub closed spec fn archive_bytes(&self) -> Seq<u8> {
        self.archive@
    }

    /// The table of contents, by path.
    pub closed spec fn table(&self) -> Seq<(Seq<char>, TocEntry)> {
        self.toc@.map_values(|e: (String, TocEntry)| (e.0@, e.1@))
    }

    /// The unpacked files read so far, by path.
    pub closed spec fn cache(&self) -> Seq<(Seq<char>, Seq<u8>)> {
        self.file_cache@.map_values(|e: (String, Vec<u8>)| (e.0@, e.1@))
    }

    /// The open handles, each with its file's path and length.
    pub closed spec fn handles(&self) -> Map<u32, (Seq<char>, u32)> {
        self.open_files@.map_values(|f: OpenFile| (f.path@, f.length))
    }

    /// The handle the next successful open returns.
    pub closed spec fn next(&self) -> u32 {
        self.next_handle
    }

    /// Paths occur once in the table and in the cache; handles are numbered
    /// from 1 and lie below the next one to be handed out.
    pub closed spec fn wf(&self) -> bool {
        &&& unique_keys(self.table())
        &&& unique_keys(self.cache())
        &&& self.next() >= 1
        &&& forall|h: u32| #[trigger] self.handles().contains_key(h) ==> 1 <= h < self.next()
    }

    /// Handle 0, which a failed open returns, is never open.
    pub proof fn law_handle_zero_never_open(&self)
        requires
            self.wf(),
        ensures
            !self.handles().contains_key(0),
    {
    }
}

/// Sets `key` to `v` in a list of pairs with unique keys.
pub(crate) fn store_entry<V: View>(list: &mut Vec<(String, V)>, key: String, v: V)
    requires
        unique_keys(old(list)@.map_values(|e: (String, V)| (e.0@, e.1@))),
    ensures
        final(list)@.map_values(|e: (String, V)| (e.0@, e.1@)) == store(
            old(list)@.map_values(|e: (String, V)| (e.0@, e.1@)),
            key@,
            v@,
        ),
        unique_keys(final(list)@.map_values(|e: (String, V)| (e.0@, e.1@))),
{
    let ghost s = list@.map_values(|e: (String, V)| (e.0@, e.1@));
    let mut i: usize = 0;
    while i < list.len()
        invariant
            i <= list@.len(),
            s == list@.map_values(|e: (String, V)| (e.0@, e.1@)),
            s == old(list)@.map_values(|e: (String, V)| (e.0@, e.1@)),
            unique_keys(s),
            forall|j: int| 0 <= j < i ==> s[j].0 != key@,
        decreases list@.len() - i,
    {
        if list[i].0 == key {
            assert(s[i as int].0 == key@);
            proof {
                assert forall|j: int| 0 <= j < s.len() && s[j].0 == key@ implies j == i by {
                    if j != i {
                        if j < i {
                        } else {
                            assert(s[i as int].0 != s[j].0);
                        }
                    }
                }
            }
            let ghost kv = key@;
            let ghost vv = v@;
            assert(exists|c: int| 0 <= c < s.len() && s[c].0 == kv);
            let ghost c = choose|c: int| 0 <= c < s.len() && s[c].0 == kv;
            assert(c == i);
            assert(store(s, kv, vv) == s.update(i as int, (kv, vv)));
            list.set(i, (key, v));
            assert(list@.map_values(|e: (String, V)| (e.0@, e.1@)) =~= s.update(i as int, (kv, vv)));
            return;
        }
        i = i + 1;
    }
    let ghost kv = key@;
    let ghost vv = v@;
    list.push((key, v));
    assert(list@.map_values(|e: (String, V)| (e.0@, e.1@)) =~= s.push((kv, vv)));
}

/// The bytes `v[lo..hi]`.
fn copy_bytes(v: &[u8], lo: usize, hi: usize) -> (r: Vec<u8>)
    requires
        lo <= hi <= v@.len(),
    ensures
        r@ == v@.subrange(lo as int, hi as int),
{
    let mut r: Vec<u8> = Vec::new();
    let mut i: usize = lo;
    while i < hi
        invariant
            lo <= i <= hi,
            hi <= v@.len(),
            r@ == v@.subrange(lo as int, i as int),
        decreases hi - i,
    {
        r.push(v[i]);
        assert(r@ =~= v@.subrange(lo as int, i + 1));
        i = i + 1;
    }
    r
}

/// Little-endian 64-bit value at `offset`.
fn read_u64_le(data: &[u8], offset: usize) -> (v: u64)
    requires
        offset + 8 <= data@.len(),
    ensures
        v == le_u64_at(data@, offset as int),
{
    (data[offset] as u64) | ((data[offset + 1] as u64) << 8u64) | ((data[offset + 2] as u64)
        << 16u64) | ((data[offset + 3] as u64) << 24u64) | ((data[offset + 4] as u64) << 32u64)
        | ((data[offset + 5] as u64) << 40u64) | ((data[offset + 6] as u64) << 48u64) | ((data[offset
        + 7] as u64) << 56u64)
}

/// The table and its path list with the entries parsed so far.
fn table_step(
    toc: &mut Vec<(String, TocEntry)>,
    path: String,
    entry: TocEntry,
    Ghost(parsed): Ghost<Seq<(Seq<char>, TocEntry)>>,
)
    requires
        old(toc)@.map_values(|e: (String, TocEntry)| (e.0@, e.1@)) == table_of(parsed),
        unique_keys(table_of(parsed)),
    ensures
        final(toc)@.map_values(|e: (String, TocEntry)| (e.0@, e.1@)) == table_of(
            parsed.push((path@, entry)),
        ),
        unique_keys(table_of(parsed.push((path@, entry)))),
{
    let ghost key = path@;
    store_entry(toc, path, entry);
    assert(parsed.push((key, entry)).drop_last() =~= parsed);
}

impl VirtualFilesystem {
    /// Opens an archive: an empty one holds no files; otherwise the header
    /// must be whole, start with `GCFS`, and place the table inside the
    /// archive, and each table entry must be whole. Later entries for a
    /// path replace earlier ones. Handles start at 1.
    pub fn new(archive: &'static [u8]) -> (r: Result<VirtualFilesystem, String>)
        ensures
            match archive_toc(archive@) {
                Ok(entries) => r matches Ok(fs) && fs.wf() && fs.archive_bytes() == archive@
                    && fs.table() == table_of(entries) && fs.cache().len() == 0 && fs.handles()
                    == Map::<u32, (Seq<char>, u32)>::empty() && fs.next() == 1,
                Err(m) => r matches Err(e) && e@ == m,
            },
    {
        let ghost a = archive@;
        let len = archive.len();
        let mut toc: Vec<(String, TocEntry)> = Vec::new();
        if len == 0 {
            let fs = VirtualFilesystem {
                archive,
                toc,
                file_cache: Vec::new(),
                open_files: HashMap::new(),
                next_handle: 1,
            };
            assert(fs.table() =~= Seq::<(Seq<char>, TocEntry)>::empty());
            assert(fs.cache() =~= Seq::<(Seq<char>, Seq<u8>)>::empty());
            assert(fs.handles() =~= Map::<u32, (Seq<char>, u32)>::empty());
            return Ok(fs);
        }
        if len < 20 {
            return Err(String::from_str("GCFS archive too small for header."));
        }
        if !(archive[0] == 0x47 && archive[1] == 0x43 && archive[2] == 0x46 && archive[3] == 0x53) {
            return Err(String::from_str("Invalid GCFS magic."));
        }
        let file_count: u32 = (archive[8] as u32) | ((archive[9] as u32) << 8u32) | ((archive[10] as u32)
            << 16u32) | ((archive[11] as u32) << 24u32);
        let toc_offset: usize = read_u64_le(archive, 12) as usize;
        if toc_offset > len {
            let mut m = String::from_str("GCFS TOC offset ");
            append_dec(&mut m, toc_offset as u64);
            m.append(" exceeds archive size ");
            append_dec(&mut m, len as u64);
            m.append(".");
            assert(m@ =~= "GCFS TOC offset "@ + dec_nat(toc_offset as nat) + " exceeds archive size "@
                + dec_nat(len as nat) + "."@);
            return Err(m);
        }
        let mut pos: usize = toc_offset;
        let mut i: u32 = 0;
        let ghost mut parsed: Seq<(Seq<char>, TocEntry)> = seq![];
        assert(toc@.map_values(|e: (String, TocEntry)| (e.0@, e.1@)) =~= table_of(parsed));
        while i < file_count
            invariant
                a == archive@,
                len == a.len(),
                pos <= len,
                i <= file_count,
                archive_toc(a) == prepend(parsed, toc_from(a, pos as int, (file_count - i) as nat)),
                toc@.map_values(|e: (String, TocEntry)| (e.0@, e.1@)) == table_of(parsed),
                unique_keys(table_of(parsed)),
            decreases file_count - i,
        {
            assert(toc_from(a, pos as int, (file_count - i) as nat) == {
                let count = (file_count - i) as nat;
                if pos + 2 > a.len() {
                    Err("GCFS TOC truncated (path_len)."@)
                } else {
                    toc_from(a, pos as int, count)
                }
            });
            if len - pos < 2 {
                return Err(String::from_str("GCFS TOC truncated (path_len)."));
            }
            let path_len: usize = ((archive[pos] as u16) | ((archive[pos + 1] as u16) << 8u16)) as usize;
            let p1 = pos + 2;
            if path_len > len - p1 {
                return Err(String::from_str("GCFS TOC truncated (path)."));
            }
            let bytes = copy_bytes(archive, p1, p1 + path_len);
            let path = utf8_lossy(bytes.as_slice());
            let p2 = p1 + path_len;
            if len - p2 < 24 {
                return Err(String::from_str("GCFS TOC truncated (offsets)."));
            }
            let data_offset = read_u64_le(archive, p2) as usize;
            let compressed_size = read_u64_le(archive, p2 + 8) as usize;
            let decompressed_size = read_u64_le(archive, p2 + 16) as usize;
            let entry = TocEntry { data_offset, compressed_size, decompressed_size };
            let ghost item = (path@, entry);
            table_step(&mut toc, path, entry, Ghost(parsed));
            proof {
                assert(prepend(parsed, prepend(seq![item], toc_from(a, p2 + 24, (file_count - i - 1) as nat)))
                    == prepend(parsed.push(item), toc_from(a, p2 + 24, (file_count - i - 1) as nat))) by {
                    assert(parsed + seq![item] =~= parsed.push(item));
                    match toc_from(a, p2 + 24, (file_count - i - 1) as nat) {
                        Ok(t) => {
                            assert(parsed + (seq![item] + t) =~= parsed.push(item) + t);
                        },
                        Err(_) => {},
                    }
                }
                parsed = parsed.push(item);
            }
            pos = p2 + 24;
            i = i + 1;
        }
        let fs = VirtualFilesystem {
            archive,
            toc,
            file_cache: Vec::new(),
            open_files: HashMap::new(),
            next_handle: 1,
        };
        assert(parsed + seq![] =~= parsed);
        assert(fs.cache() =~= Seq::<(Seq<char>, Seq<u8>)>::empty());
        assert(fs.handles() =~= Map::<u32, (Seq<char>, u32)>::empty());
        Ok(fs)
    }
}

/// With unique keys, the value stored at a key's position is the one
/// looked up.
proof fn lemma_lookup_at<V>(s: Seq<(Seq<char>, V)>, i: int)
    requires
        unique_keys(s),
        0 <= i < s.len(),
    ensures
        lookup(s, s[i].0) == Some(s[i].1),
    decreases s.len(),
{
    if i < s.len() - 1 {
        assert(s.last().0 != s[i].0);
        assert(unique_keys(s.drop_last()));
        lemma_lookup_at(s.drop_last(), i);
    }
}

/// A key at no position is not found.
proof fn lemma_lookup_absent<V>(s: Seq<(Seq<char>, V)>, k: Seq<char>)
    requires
        forall|i: int| 0 <= i < s.len() ==> s[i].0 != k,
    ensures
        lookup(s, k) is None,
    decreases s.len(),
{
    if s.len() > 0 {
        lemma_lookup_absent(s.drop_last(), k);
    }
}

/// The message for a failed write into guest memory.
pub open spec fn write_error_text(e: MemoryError) -> Seq<char> {
    match e {
        MemoryError::InvalidAddress(_) => "Invalid memory address"@,
        _ => "Memory write out of bounds"@,
    }
}

/// What reading `length` bytes at `offset` of a file's data `d` into guest
/// memory at `gc_addr` does: nothing and 0 when the offset is past the
/// end; else the bytes up to the end of the file are written, and their
/// count returned, or the write's error reported.
pub open spec fn data_read(
    d: Seq<u8>,
    offset: u32,
    length: u32,
    gc_addr: u32,
    m0: MemoryState,
    m1: MemoryState,
    r: Result<u32, String>,
) -> bool {
    let start = offset as int;
    let end = if start + length < d.len() {
        start + length
    } else {
        d.len() as int
    };
    if start >= d.len() {
        r == Ok::<u32, String>(0) && m1 == m0
    } else {
        match ram_write_outcome(m0, gc_addr, d.subrange(start, end)) {
            Ok(m2) => m1 == m2 && r == Ok::<u32, String>((end - start) as u32),
            Err(e) => m1 == m0 && (r matches Err(t) && t@ == "DVDRead: memory write failed at 0x"@
                + hex8(gc_addr) + ": "@ + write_error_text(e)),
        }
    }
}

impl VirtualFilesystem {
    /// Index of the table entry with key `k`.
    fn find_key(&self, k: &String) -> (r: Option<usize>)
        requires
            self.wf(),
        ensures
            r matches Some(i) ==> i < self.table().len() && self.table()[i as int].0 == k@
                && lookup(self.table(), k@) == Some(self.table()[i as int].1),
            r is None ==> lookup(self.table(), k@) is None,
    {
        let ghost t = self.table();
        let mut i: usize = 0;
        while i < self.toc.len()
            invariant
                t == self.table(),
                unique_keys(t),
                i <= self.toc@.len(),
                forall|j: int| 0 <= j < i ==> t[j].0 != k@,
            decreases self.toc@.len() - i,
        {
            assert(t[i as int] == (self.toc@[i as int].0@, self.toc@[i as int].1));
            if self.toc[i].0 == *k {
                proof {
                    lemma_lookup_at(t, i as int);
                }
                return Some(i);
            }
            i = i + 1;
        }
        proof {
            lemma_lookup_absent(t, k@);
        }
        None
    }

    /// Index of the first table entry whose key, lowercased, is `lower`.
    fn find_folded(&self, lower: &String) -> (r: Option<usize>)
        ensures
            ({
                let keys = self.table().map_values(|e: (Seq<char>, TocEntry)| e.0);
                match first_folded(keys, lower@, keys.len() as int) {
                    Some(k) => r matches Some(i) && i < self.table().len() && self.table()[i as int].0
                        == k,
                    None => r is None,
                }
            }),
    {
        let ghost t = self.table();
        let ghost keys = t.map_values(|e: (Seq<char>, TocEntry)| e.0);
        let mut i: usize = 0;
        while i < self.toc.len()
            invariant
                t == self.table(),
                keys == t.map_values(|e: (Seq<char>, TocEntry)| e.0),
                keys.len() == self.toc@.len(),
                i <= self.toc@.len(),
                first_folded(keys, lower@, i as int) is None,
            decreases self.toc@.len() - i,
        {
            assert(keys[i as int] == self.toc@[i as int].0@);
            let l = to_lowercase(self.toc[i].0.as_str());
            if l == *lower {
                proof {
                    lemma_first_folded_stays(keys, lower@, i as int, keys.len() as int);
                }
                return Some(i);
            }
            i = i + 1;
        }
        None
    }

    /// Opens a file by path: one leading `/` is dropped; the path names the
    /// table entry with that key, else the first whose key equals it
    /// ignoring case. A found file gets the next handle, recorded with its
    /// path and its unpacked length (cut to 32 bits); otherwise 0 is
    /// returned and nothing changes.
    pub fn dvd_open(&mut self, path: &str) -> (h: u32)
        requires
            old(self).wf(),
            old(self).next() < u32::MAX,
        ensures
            final(self).wf(),
            final(self).archive_bytes() == old(self).archive_bytes(),
            final(self).table() == old(self).table(),
            final(self).cache() == old(self).cache(),
            match resolve(old(self).table(), path@) {
                Some(k) => h == old(self).next() && final(self).next() == old(self).next() + 1
                    && final(self).handles() == old(self).handles().insert(
                    h,
                    (k, lookup(old(self).table(), k).unwrap().decompressed_size as u32),
                ),
                None => h == 0 && final(self).next() == old(self).next() && final(self).handles()
                    == old(self).handles(),
            },
    {
        let chars = chars_of(path);
        let normalized = if chars.len() > 0 && chars[0] == '/' {
            let rest = slice_chars(chars.as_slice(), 1, chars.len());
            string_of(rest.as_slice())
        } else {
            string_of(chars.as_slice())
        };
        assert(normalized@ =~= normalized_path(path@));
        let found: Option<usize> = match self.find_key(&normalized) {
            Some(i) => Some(i),
            None => {
                let lower = to_lowercase(normalized.as_str());
                self.find_folded(&lower)
            },
        };
        match found {
            Some(i) => {
                let key = self.toc[i].0.clone();
                let entry = self.toc[i].1;
                proof {
                    lemma_lookup_at(self.table(), i as int);
                    assert(self.table()[i as int] == (self.toc@[i as int].0@, self.toc@[i as int].1));
                }
                let length: u32 = entry.decompressed_size as u32;
                let ghost h0 = self.handles();
                let handle = self.next_handle;
                self.next_handle = self.next_handle + 1;
                let ghost before = self.open_files@;
                self.open_files.insert(handle, OpenFile { path: key, length });
                assert(self.handles() =~= before.map_values(|f: OpenFile| (f.path@, f.length)).insert(
                    handle,
                    (key@, length),
                ));
                assert forall|h: u32| #[trigger] self.handles().contains_key(h) implies 1 <= h < self.next() by {
                    if h != handle {
                        assert(h0.contains_key(h));
                    }
                }
                handle
            },
            None => 0,
        }
    }

    /// Closes a handle; whether it was open.
    pub fn dvd_close(&mut self, handle: u32) -> (b: bool)
        requires
            old(self).wf(),
        ensures
            final(self).wf(),
            b == old(self).handles().contains_key(handle),
            final(self).handles() == old(self).handles().remove(handle),
            final(self).archive_bytes() == old(self).archive_bytes(),
            final(self).table() == old(self).table(),
            final(self).cache() == old(self).cache(),
            final(self).next() == old(self).next(),
    {
        let ghost before = self.open_files@;
        let removed = self.open_files.remove(&handle);
        assert(self.handles() =~= before.map_values(|f: OpenFile| (f.path@, f.length)).remove(handle));
        assert forall|h: u32| #[trigger] self.handles().contains_key(h) implies 1 <= h < self.next() by {
            assert(before.map_values(|f: OpenFile| (f.path@, f.length)).contains_key(h));
            assert(old(self).handles().contains_key(h));
        }
        removed.is_some()
    }

    /// The length of an open file, or 0 for an unknown handle.
    pub fn dvd_get_length(&self, handle: u32) -> (n: u32)
        ensures
            n == (if self.handles().contains_key(handle) {
                self.handles()[handle].1
            } else {
                0
            }),
    {
        match self.open_files.get(&handle) {
            Some(f) => f.length,
            None => 0,
        }
    }
}

/// A first match among a prefix stays the first match of longer prefixes.
proof fn lemma_first_folded_stays(keys: Seq<Seq<char>>, lower: Seq<char>, i: int, n: int)
    requires
        0 <= i < n <= keys.len(),
        first_folded(keys, lower, i) is None,
        lowered(keys[i]) == lower,
    ensures
        first_folded(keys, lower, n) == Some(keys[i]),
    decreases n,
{
    if n > i + 1 {
        lemma_first_folded_stays(keys, lower, i, n - 1);
    }
}

/// Every table entry's data ends within the address space.
pub open spec fn extents_fit(t: Seq<(Seq<char>, TocEntry)>) -> bool {
    forall|i: int| 0 <= i < t.len() ==> #[trigger] t[i].1.data_offset + t[i].1.compressed_size <= usize::MAX
}

/// A message that quotes a path.
fn quoted(prefix: &str, path: &String, suffix: &str) -> (m: String)
    ensures
        m@ == prefix@ + path@ + suffix@,
{
    let mut m = String::from_str(prefix);
    m.append(path.as_str());
    m.append(suffix);
    m
}

impl VirtualFilesystem {
    /// Index of the cached data of `k`.
    fn find_cached(&self, k: &String) -> (r: Option<usize>)
        requires
            self.wf(),
        ensures
            r matches Some(i) ==> i < self.cache().len() && lookup(self.cache(), k@) == Some(
                self.cache()[i as int].1,
            ),
            r is None ==> lookup(self.cache(), k@) is None && forall|j: int|
                0 <= j < self.cache().len() ==> self.cache()[j].0 != k@,
    {
        let ghost t = self.cache();
        let mut i: usize = 0;
        while i < self.file_cache.len()
            invariant
                t == self.cache(),
                unique_keys(t),
                i <= self.file_cache@.len(),
                forall|j: int| 0 <= j < i ==> t[j].0 != k@,
            decreases self.file_cache@.len() - i,
        {
            assert(t[i as int] == (self.file_cache@[i as int].0@, self.file_cache@[i as int].1@));
            if self.file_cache[i].0 == *k {
                proof {
                    lemma_lookup_at(t, i as int);
                }
                return Some(i);
            }
            i = i + 1;
        }
        proof {
            lemma_lookup_absent(t, k@);
        }
        None
    }

    /// Reads bytes of an open file into guest memory. The file is unpacked
    /// from the archive on its first read and kept. Reading from `offset`,
    /// at most `length` bytes up to the end of the file are written at
    /// `gc_addr` and their count returned; 0 when the offset is past the
    /// end.
    pub fn dvd_read(
        &mut self,
        handle: u32,
        memory: &mut MemoryManager,
        gc_addr: u32,
        length: u32,
        offset: u32,
    ) -> (r: Result<u32, String>)
        requires
            old(self).wf(),
            old(memory).wf(),
            extents_fit(old(self).table()),
            ram_offset(gc_addr) matches Some(off) ==> off + length <= usize::MAX,
        ensures
            final(self).wf(),
            final(memory).wf(),
            final(self).archive_bytes() == old(self).archive_bytes(),
            final(self).table() == old(self).table(),
            final(self).handles() == old(self).handles(),
            final(self).next() == old(self).next(),
            !old(self).handles().contains_key(handle) ==> (r matches Err(m) && m@ == "DVDRead: invalid handle "@
                + dec_nat(handle as nat)) && final(self).cache() == old(self).cache() && final(memory)@
                == old(memory)@,
            old(self).handles().contains_key(handle) ==> ({
                let path = old(self).handles()[handle].0;
                match lookup(old(self).cache(), path) {
                    Some(d) => final(self).cache() == old(self).cache() && data_read(
                        d,
                        offset,
                        length,
                        gc_addr,
                        old(memory)@,
                        final(memory)@,
                        r,
                    ),
                    None => match lookup(old(self).table(), path) {
                        None => (r matches Err(m) && m@ == "DVDRead: TOC entry missing for '"@ + path
                            + "'"@) && final(self).cache() == old(self).cache() && final(memory)@
                            == old(memory)@,
                        Some(e) => if e.data_offset + e.compressed_size > old(self).archive_bytes().len() {
                            (r matches Err(m) && m@ == "DVDRead: compressed data for '"@ + path
                                + "' out of bounds."@) && final(self).cache() == old(self).cache()
                                && final(memory)@ == old(memory)@
                        } else {
                            match zstd_decompressed(
                                old(self).archive_bytes().subrange(
                                    e.data_offset as int,
                                    e.data_offset + e.compressed_size,
                                ),
                            ) {
                                None => (r matches Err(m) && m@.take(
                                    ("DVDRead: zstd decompression failed for '"@ + path + "': "@).len() as int,
                                ) == "DVDRead: zstd decompression failed for '"@ + path + "': "@)
                                    && final(self).cache() == old(self).cache() && final(memory)@
                                    == old(memory)@,
                                Some(d) => final(self).cache() == store(old(self).cache(), path, d)
                                    && data_read(
                                    d,
                                    offset,
                                    length,
                                    gc_addr,
                                    old(memory)@,
                                    final(memory)@,
                                    r,
                                ),
                            }
                        },
                    },
                }
            }),
    {
        let path = match self.open_files.get(&handle) {
            None => {
                let mut m = String::from_str("DVDRead: invalid handle ");
                append_dec(&mut m, handle as u64);
                return Err(m);
            },
            Some(f) => f.path.clone(),
        };
        let idx: usize = match self.find_cached(&path) {
            Some(i) => i,
            None => {
                let e = match self.find_key(&path) {
                    None => {
                        return Err(quoted("DVDRead: TOC entry missing for '", &path, "'"));
                    },
                    Some(t) => self.toc[t].1,
                };
                assert(extents_fit(self.table()));
                let compressed_end = e.data_offset + e.compressed_size;
                if compressed_end > self.archive.len() {
                    return Err(quoted("DVDRead: compressed data for '", &path, "' out of bounds."));
                }
                let compressed = copy_bytes(self.archive, e.data_offset, compressed_end);
                let decompressed = match zstd_decode(compressed.as_slice()) {
                    Ok(d) => d,
                    Err(err) => {
                        let mut m = quoted("DVDRead: zstd decompression failed for '", &path, "': ");
                        let ghost pre = m@;
                        m.append(err.as_str());
                        assert(m@.take(pre.len() as int) =~= pre);
                        return Err(m);
                    },
                };
                let ghost c0 = self.cache();
                let ghost key = path@;
                let ghost dv = decompressed@;
                let mut cache = Vec::new();
                std::mem::swap(&mut cache, &mut self.file_cache);
                store_entry(&mut cache, path.clone(), decompressed);
                std::mem::swap(&mut cache, &mut self.file_cache);
                proof {
                    assert(!exists|j: int| 0 <= j < c0.len() && c0[j].0 == key);
                    assert(self.cache() == c0.push((key, dv)));
                    assert(self.cache()[self.cache().len() - 1] == (key, dv));
                    lemma_lookup_at(self.cache(), self.cache().len() - 1);
                }
                self.file_cache.len() - 1
            },
        };
        let ghost d = self.cache()[idx as int].1;
        assert(self.file_cache@[idx as int].1@ == d);
        self.read_cached(idx, memory, gc_addr, length, offset)
    }

    /// Writes bytes of the cached file at `idx` into guest memory, as
    /// `data_read` states.
    fn read_cached(&self, idx: usize, memory: &mut MemoryManager, gc_addr: u32, length: u32, offset: u32) -> (r:
        Result<u32, String>)
        requires
            idx < self.cache().len(),
            old(memory).wf(),
            ram_offset(gc_addr) matches Some(off) ==> off + length <= usize::MAX,
        ensures
            final(memory).wf(),
            data_read(self.cache()[idx as int].1, offset, length, gc_addr, old(memory)@, final(memory)@, r),
    {
        let d = &self.file_cache[idx].1;
        assert(d@ == self.cache()[idx as int].1);
        let n = d.len();
        let start = offset as usize;
        if start >= n {
            return Ok(0);
        }
        let end64: u64 = offset as u64 + length as u64;
        let end: usize = if end64 < n as u64 {
            end64 as usize
        } else {
            n
        };
        let slice = copy_bytes(d.as_slice(), start, end);
        match memory.write_bytes(gc_addr, slice.as_slice()) {
            Ok(()) => Ok((end - start) as u32),
            Err(e) => {
                let mut m = String::from_str("DVDRead: memory write failed at 0x");
                append_hex(&mut m, gc_addr, 8);
                m.append(": ");
                match e {
                    MemoryError::InvalidAddress(_) => m.append("Invalid memory address"),
                    _ => m.append("Memory write out of bounds"),
                }
                Err(m)
            },
        }
    }
}

} // verus!
