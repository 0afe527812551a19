//! The DOL executable format of the GameCube: a 0x100-byte big-endian header
//! listing up to 7 text and 11 data sections, the BSS range and the entry
//! point, followed by the section images.
use vstd::prelude::*;
use crate::memory::be_u32;

verus! {

/// Smallest accepted file: the header.
pub const MIN_DOL_SIZE: usize = 0x100;

/// Number of text section slots.
pub const NUM_TEXT_SECTIONS: usize = 7;

/// Number of data section slots.
pub const NUM_DATA_SECTIONS: usize = 11;

/// One section of a DOL file.
pub struct Section {
    /// Offset of the image in the file.
    pub offset: u32,
    /// Load address.
    pub address: u32,
    /// Size in bytes.
    pub size: u32,
    /// The image.
    pub data: Vec<u8>,
    /// Text (code) section.
    pub executable: bool,
}

/// Abstract content of a section.
pub struct SectionSpec {
    pub offset: u32,
    pub address: u32,
    pub size: u32,
    pub data: Seq<u8>,
    pub executable: bool,
}

impl View for Section {
    type V = SectionSpec;

    open spec fn view(&self) -> SectionSpec {
        SectionSpec {
            offset: self.offset,
            address: self.address,
            size: self.size,
            data: self.data@,
            executable: self.executable,
        }
    }
}

/// A parsed DOL file.
pub struct DolFile {
    pub text_sections: Vec<Section>,
    pub data_sections: Vec<Section>,
    pub bss_address: u32,
    pub bss_size: u32,
    pub entry_point: u32,
    pub path: String,
}

/// Why a DOL file was refused.
#[derive(Debug, Clone, Copy, PartialEq, Eq, Structural)]
pub enum DolError {
    /// Shorter than the header; carries the length.
    TooSmall(usize),
    /// A text section runs past the end of the file.
    TextSectionOutOfBounds { index: usize, offset: u32, size: u32 },
    /// A data section runs past the end of the file.
    DataSectionOutOfBounds { index: usize, offset: u32, size: u32 },
}

/// The `k`-th big-endian header word.
pub open spec fn header_word(data: Seq<u8>, k: int) -> u32 {
    be_u32(data.subrange(4 * k, 4 * k + 4))
}

/// Header word index of a section's offset, address and size.
pub open spec fn slot_words(text: bool, i: int) -> (int, int, int) {
    if text {
        (i, 18 + i, 36 + i)
    } else {
        (7 + i, 25 + i, 43 + i)
    }
}

/// The sections of one kind among the first `n` slots, or the error for the
/// first slot whose image runs past the file.
pub open spec fn section_table(data: Seq<u8>, text: bool, n: nat) -> Result<Seq<SectionSpec>, DolError>
    decreases n,
{
    if n == 0 {
        Ok(seq![])
    } else {
        let i = n - 1;
        match section_table(data, text, (n - 1) as nat) {
            Err(e) => Err(e),
            Ok(prev) => {
                let (wo, wa, ws) = slot_words(text, i);
                let off = header_word(data, wo);
                let addr = header_word(data, wa);
                let size = header_word(data, ws);
                if off == 0 || size == 0 {
                    Ok(prev)
                } else if off + size > data.len() {
                    if text {
                        Err(DolError::TextSectionOutOfBounds { index: i as usize, offset: off, size })
                    } else {
                        Err(DolError::DataSectionOutOfBounds { index: i as usize, offset: off, size })
                    }
                } else {
                    Ok(
                        prev.push(
                            SectionSpec {
                                offset: off,
                                address: addr,
                                size,
                                data: data.subrange(off as int, off + size),
                                executable: text,
                            },
                        ),
                    )
                }
            },
        }
    }
}

/// Once a slot is refused, every longer table is refused with the same error.
proof fn lemma_section_table_error_sticks(data: Seq<u8>, text: bool, n: nat, m: nat)
    requires
        n <= m,
        section_table(data, text, n) is Err,
    ensures
        section_table(data, text, m) == section_table(data, text, n),
    decreases m - n,
{
    if n < m {
        lemma_section_table_error_sticks(data, text, n, (m - 1) as nat);
    }
}

/// The outcome of parsing: `None` for success, or the refusal.
pub open spec fn parse_error(data: Seq<u8>) -> Option<DolError> {
    if data.len() < MIN_DOL_SIZE {
        Some(DolError::TooSmall(data.len() as usize))
    } else {
        match section_table(data, true, NUM_TEXT_SECTIONS as nat) {
            Err(e) => Some(e),
            Ok(_) => match section_table(data, false, NUM_DATA_SECTIONS as nat) {
                Err(e) => Some(e),
                Ok(_) => None,
            },
        }
    }
}

/// Reads the `k`-th big-endian header word.
fn read_word(data: &[u8], k: usize) -> (w: u32)
    requires
        k <= 56,
        4 * k + 4 <= data@.len(),
    ensures
        w == header_word(data@, k as int),
{
    let i = 4 * k;
    ((data[i] as u32) << 24u32) | ((data[i + 1] as u32) << 16u32) | ((data[i + 2] as u32) << 8u32)
        | (data[i + 3] as u32)
}

/// Copies the images of one kind of section out of the file.
fn parse_sections(data: &[u8], text: bool) -> (r: Result<Vec<Section>, DolError>)
    requires
        data@.len() >= MIN_DOL_SIZE,
    ensures
        match section_table(data@, text, (if text { NUM_TEXT_SECTIONS } else { NUM_DATA_SECTIONS }) as nat) {
            Ok(s) => r matches Ok(v) && v@.map_values(|x: Section| x@) == s,
            Err(e) => r == Err::<Vec<Section>, DolError>(e),
        },
{
    let count: usize = if text {
        NUM_TEXT_SECTIONS
    } else {
        NUM_DATA_SECTIONS
    };
    let mut sections: Vec<Section> = Vec::new();
    let mut i: usize = 0;
    while i < count
        invariant
            data@.len() >= MIN_DOL_SIZE,
            count == (if text { NUM_TEXT_SECTIONS } else { NUM_DATA_SECTIONS }),
            i <= count,
            section_table(data@, text, i as nat) matches Ok(s) && sections@.map_values(
                |x: Section| x@,
            ) == s,
        decreases count - i,
    {
        let (wo, wa, ws) = if text {
            (i, 18 + i, 36 + i)
        } else {
            (7 + i, 25 + i, 43 + i)
        };
        let off = read_word(data, wo);
        let addr = read_word(data, wa);
        let size = read_word(data, ws);
        if off != 0 && size != 0 {
            if (off as u64) + (size as u64) > data.len() as u64 {
                proof {
                    lemma_section_table_error_sticks(data@, text, (i + 1) as nat, count as nat);
                }
                if text {
                    return Err(DolError::TextSectionOutOfBounds { index: i, offset: off, size });
                } else {
                    return Err(DolError::DataSectionOutOfBounds { index: i, offset: off, size });
                }
            }
            let start = off as usize;
            let end = start + size as usize;
            let image = vstd::slice::slice_to_vec(vstd::slice::slice_subrange(data, start, end));
            let ghost before = sections@;
            sections.push(Section { offset: off, address: addr, size, data: image, executable: text });
            proof {
                assert(sections@.map_values(|x: Section| x@) =~= before.map_values(|x: Section| x@).push(
                    sections@[before.len() as int]@,
                ));
            }
        }
        i = i + 1;
    }
    Ok(sections)
}

/// Whether `d` is what parsing `data` read from `path` gives: the text and
/// data section tables, the BSS range and the entry point from the header.
pub open spec fn parsed_as(d: DolFile, data: Seq<u8>, path: Seq<char>) -> bool {
    &&& d.text_sections@.map_values(|x: Section| x@) == section_table(
        data,
        true,
        NUM_TEXT_SECTIONS as nat,
    ).unwrap()
    &&& d.data_sections@.map_values(|x: Section| x@) == section_table(
        data,
        false,
        NUM_DATA_SECTIONS as nat,
    ).unwrap()
    &&& d.bss_address == header_word(data, 54)
    &&& d.bss_size == header_word(data, 55)
    &&& d.entry_point == header_word(data, 56)
    &&& d.path@ == path
}

impl DolFile {
    /// Parses a DOL image. Refused when shorter than the 0x100-byte header,
    /// or when a non-empty section (nonzero offset and size) runs past the
    /// end of the file; text sections are checked before data sections.
    pub fn parse(data: &[u8], path: &str) -> (r: Result<DolFile, DolError>)
        ensures
            match parse_error(data@) {
                Some(e) => r == Err::<DolFile, DolError>(e),
                None => r matches Ok(d) && parsed_as(d, data@, path@),
            },
    {
        if data.len() < MIN_DOL_SIZE {
            return Err(DolError::TooSmall(data.len()));
        }
        let bss_address = read_word(data, 54);
        let bss_size = read_word(data, 55);
        let entry_point = read_word(data, 56);
        let text_sections = match parse_sections(data, true) {
            Ok(s) => s,
            Err(e) => {
                return Err(e);
            },
        };
        let data_sections = match parse_sections(data, false) {
            Ok(s) => s,
            Err(e) => {
                return Err(e);
            },
        };
        Ok(DolFile { text_sections, data_sections, bss_address, bss_size, entry_point, path: path.to_owned() })
    }

    /// All sections: the text sections, then the data sections.
    pub fn get_all_sections(&self) -> (all: Vec<Section>)
        ensures
            all@.map_values(|x: Section| x@) == self.text_sections@.map_values(|x: Section| x@)
                + self.data_sections@.map_values(|x: Section| x@),
    {
        let mut all: Vec<Section> = Vec::new();
        let mut i: usize = 0;
        while i < self.text_sections.len()
            invariant
                i <= self.text_sections@.len(),
                all@.map_values(|x: Section| x@) == self.text_sections@.map_values(
                    |x: Section| x@,
                ).subrange(0, i as int),
            decreases self.text_sections@.len() - i,
        {
            let s = &self.text_sections[i];
            let ghost before = all@;
            all.push(s.duplicate());
            i = i + 1;
            proof {
                assert(all@.map_values(|x: Section| x@) =~= before.map_values(|x: Section| x@).push(
                    all@[before.len() as int]@,
                ));
                assert(all@.map_values(|x: Section| x@) =~= self.text_sections@.map_values(
                    |x: Section| x@,
                ).subrange(0, i as int));
            }
        }
        let mut j: usize = 0;
        while j < self.data_sections.len()
            invariant
                j <= self.data_sections@.len(),
                all@.map_values(|x: Section| x@) == self.text_sections@.map_values(
                    |x: Section| x@,
                ) + self.data_sections@.map_values(|x: Section| x@).subrange(0, j as int),
            decreases self.data_sections@.len() - j,
        {
            let s = &self.data_sections[j];
            let ghost before = all@;
            all.push(s.duplicate());
            j = j + 1;
            proof {
                assert(all@.map_values(|x: Section| x@) =~= before.map_values(|x: Section| x@).push(
                    all@[before.len() as int]@,
                ));
                assert(all@.map_values(|x: Section| x@) =~= self.text_sections@.map_values(
                    |x: Section| x@,
                ) + self.data_sections@.map_values(|x: Section| x@).subrange(0, j as int));
            }
        }
        proof {
            assert(self.text_sections@.map_values(|x: Section| x@).subrange(
                0,
                self.text_sections@.len() as int,
            ) =~= self.text_sections@.map_values(|x: Section| x@));
            assert(self.data_sections@.map_values(|x: Section| x@).subrange(
                0,
                self.data_sections@.len() as int,
            ) =~= self.data_sections@.map_values(|x: Section| x@));
        }
        all
    }
}

impl Section {
    /// A copy of this section.
    pub fn duplicate(&self) -> (r: Section)
        ensures
            r@ == self@,
    {
        Section {
            offset: self.offset,
            address: self.address,
            size: self.size,
            data: vstd::slice::slice_to_vec(self.data.as_slice()),
            executable: self.executable,
        }
    }
}

/// The big-endian value of the four bytes of `data` from byte `at`.
pub open spec fn word_at(data: Seq<u8>, at: int) -> int {
    data[at] as int * 0x100_0000 + data[at + 1] as int * 0x1_0000 + data[at + 2] as int * 0x100
        + data[at + 3] as int
}

/// Whether `s` is the section described by the header slot whose offset,
/// load address and size words start at bytes `off_at`, `addr_at` and
/// `size_at`: all three taken from there, with its image cut from the file.
pub open spec fn section_from_slot(data: Seq<u8>, s: SectionSpec, off_at: int, addr_at: int, size_at: int) -> bool {
    &&& s.offset as int == word_at(data, off_at)
    &&& s.address as int == word_at(data, addr_at)
    &&& s.size as int == word_at(data, size_at)
    &&& s.data == data.subrange(s.offset as int, s.offset + s.size)
}

proof fn lemma_header_word_value(data: Seq<u8>, k: int)
    requires
        0 <= k,
        4 * k + 4 <= data.len(),
    ensures
        header_word(data, k) as int == word_at(data, 4 * k),
{
    let b0 = data[4 * k];
    let b1 = data[4 * k + 1];
    let b2 = data[4 * k + 2];
    let b3 = data[4 * k + 3];
    let b = data.subrange(4 * k, 4 * k + 4);
    assert(b[0] == b0 && b[1] == b1 && b[2] == b2 && b[3] == b3);
    assert((((b0 as u32) << 24u32) | ((b1 as u32) << 16u32) | ((b2 as u32) << 8u32) | (b3 as u32))
        as int == b0 as int * 0x100_0000 + b1 as int * 0x1_0000 + b2 as int * 0x100 + b3 as int)
        by (bit_vector);
}

/// Text slot `i` (`i < 7`) of the header describes `s`: its offset, load
/// address and size are the words at bytes `4i`, `0x48 + 4i` and `0x90 + 4i`.
pub open spec fn from_text_slot(data: Seq<u8>, s: SectionSpec, i: int) -> bool {
    section_from_slot(data, s, 4 * i, 0x48 + 4 * i, 0x90 + 4 * i)
}

/// Data slot `i` (`i < 11`) of the header describes `s`: its offset, load
/// address and size are the words at bytes `0x1C + 4i`, `0x64 + 4i` and
/// `0xAC + 4i`.
pub open spec fn from_data_slot(data: Seq<u8>, s: SectionSpec, i: int) -> bool {
    section_from_slot(data, s, 0x1C + 4 * i, 0x64 + 4 * i, 0xAC + 4 * i)
}

/// Text slot `i` has a nonzero offset and size.
pub open spec fn text_slot_used(data: Seq<u8>, i: int) -> bool {
    word_at(data, 4 * i) != 0 && word_at(data, 0x90 + 4 * i) != 0
}

/// Data slot `i` has a nonzero offset and size.
pub open spec fn data_slot_used(data: Seq<u8>, i: int) -> bool {
    word_at(data, 0x1C + 4 * i) != 0 && word_at(data, 0xAC + 4 * i) != 0
}

spec fn from_slot(data: Seq<u8>, s: SectionSpec, text: bool, i: int) -> bool {
    if text {
        from_text_slot(data, s, i)
    } else {
        from_data_slot(data, s, i)
    }
}

spec fn slot_used(data: Seq<u8>, text: bool, i: int) -> bool {
    if text {
        text_slot_used(data, i)
    } else {
        data_slot_used(data, i)
    }
}

proof fn lemma_table_from_header(data: Seq<u8>, text: bool, n: nat)
    requires
        data.len() >= MIN_DOL_SIZE,
        n <= (if text { NUM_TEXT_SECTIONS } else { NUM_DATA_SECTIONS }),
        section_table(data, text, n) is Ok,
    ensures
        ({
            let t = section_table(data, text, n).unwrap();
            &&& forall|k: int|
                0 <= k < t.len() ==> t[k].executable == text && t[k].offset != 0 && t[k].size != 0
                    && exists|i: int| 0 <= i < n && #[trigger] from_slot(data, t[k], text, i)
            &&& forall|i: int|
                0 <= i < n && #[trigger] slot_used(data, text, i) ==> exists|k: int|
                    0 <= k < t.len() && #[trigger] from_slot(data, t[k], text, i)
        }),
    decreases n,
{
    if n > 0 {
        let i = n - 1;
        lemma_table_from_header(data, text, (n - 1) as nat);
        let (wo, wa, ws) = slot_words(text, i);
        lemma_header_word_value(data, wo);
        lemma_header_word_value(data, wa);
        lemma_header_word_value(data, ws);
        let prev = section_table(data, text, (n - 1) as nat).unwrap();
        let t = section_table(data, text, n).unwrap();
        assert forall|k: int|
            0 <= k < t.len() implies t[k].executable == text && t[k].offset != 0 && t[k].size != 0
                && exists|i2: int| 0 <= i2 < n && #[trigger] from_slot(data, t[k], text, i2) by {
            if k < prev.len() {
                assert(t[k] == prev[k]);
                let i2 = choose|i2: int| 0 <= i2 < n - 1 && #[trigger] from_slot(data, prev[k], text, i2);
                assert(from_slot(data, t[k], text, i2));
            } else {
                assert(from_slot(data, t[k], text, i));
            }
        }
        assert forall|i2: int|
            0 <= i2 < n && #[trigger] slot_used(data, text, i2) implies exists|k: int|
                0 <= k < t.len() && #[trigger] from_slot(data, t[k], text, i2) by {
            if i2 < i {
                let k = choose|k: int| 0 <= k < prev.len() && #[trigger] from_slot(data, prev[k], text, i2);
                assert(t[k] == prev[k]);
                assert(from_slot(data, t[k], text, i2));
            } else {
                assert(from_slot(data, t[prev.len() as int], text, i));
            }
        }
    }
}

/// A parsed DOL's sections are exactly the non-empty header slots, read by
/// the header layout (`from_text_slot`, `from_data_slot`): each parsed text
/// or data section comes from a slot with nonzero offset and size, and every
/// such slot gives a parsed section, whose image is the file's bytes from the
/// offset. The BSS address, BSS size and entry point are the words at bytes
/// `0xD8`, `0xDC` and `0xE0`.
pub proof fn law_sections_from_header(d: DolFile, data: Seq<u8>, path: Seq<char>)
    requires
        parse_error(data) is None,
        parsed_as(d, data, path),
    ensures
        forall|k: int|
            0 <= k < d.text_sections@.len() ==> d.text_sections@[k].executable
                && d.text_sections@[k].offset != 0 && d.text_sections@[k].size != 0 && exists|i: int|
                0 <= i < 7 && #[trigger] from_text_slot(data, d.text_sections@[k]@, i),
        forall|i: int|
            0 <= i < 7 && #[trigger] text_slot_used(data, i) ==> exists|k: int|
                0 <= k < d.text_sections@.len() && #[trigger] from_text_slot(
                    data,
                    d.text_sections@[k]@,
                    i,
                ),
        forall|k: int|
            0 <= k < d.data_sections@.len() ==> !d.data_sections@[k].executable
                && d.data_sections@[k].offset != 0 && d.data_sections@[k].size != 0 && exists|i: int|
                0 <= i < 11 && #[trigger] from_data_slot(data, d.data_sections@[k]@, i),
        forall|i: int|
            0 <= i < 11 && #[trigger] data_slot_used(data, i) ==> exists|k: int|
                0 <= k < d.data_sections@.len() && #[trigger] from_data_slot(
                    data,
                    d.data_sections@[k]@,
                    i,
                ),
        d.bss_address as int == word_at(data, 0xD8),
        d.bss_size as int == word_at(data, 0xDC),
        d.entry_point as int == word_at(data, 0xE0),
{
    lemma_table_from_header(data, true, 7);
    lemma_table_from_header(data, false, 11);
    lemma_header_word_value(data, 54);
    lemma_header_word_value(data, 55);
    lemma_header_word_value(data, 56);
    let tt = section_table(data, true, 7).unwrap();
    let dt = section_table(data, false, 11).unwrap();
    assert(d.text_sections@.len() == tt.len());
    assert(d.data_sections@.len() == dt.len());
    assert forall|k: int| 0 <= k < tt.len() implies #[trigger] d.text_sections@[k]@ == tt[k] by {
        assert(d.text_sections@.map_values(|x: Section| x@)[k] == tt[k]);
    }
    assert forall|k: int| 0 <= k < dt.len() implies #[trigger] d.data_sections@[k]@ == dt[k] by {
        assert(d.data_sections@.map_values(|x: Section| x@)[k] == dt[k]);
    }
    assert forall|k: int| 0 <= k < d.text_sections@.len() implies d.text_sections@[k].executable
        && d.text_sections@[k].offset != 0 && d.text_sections@[k].size != 0 && exists|i: int|
        0 <= i < 7 && #[trigger] from_text_slot(data, d.text_sections@[k]@, i) by {
        assert(d.text_sections@[k]@ == tt[k]);
        let i = choose|i: int| 0 <= i < 7 && #[trigger] from_slot(data, tt[k], true, i);
        assert(from_text_slot(data, d.text_sections@[k]@, i));
    }
    assert forall|i: int| 0 <= i < 7 && #[trigger] text_slot_used(data, i) implies exists|k: int|
        0 <= k < d.text_sections@.len() && #[trigger] from_text_slot(data, d.text_sections@[k]@, i) by {
        assert(slot_used(data, true, i));
        let k = choose|k: int| 0 <= k < tt.len() && #[trigger] from_slot(data, tt[k], true, i);
        assert(d.text_sections@[k]@ == tt[k]);
        assert(from_text_slot(data, d.text_sections@[k]@, i));
    }
    assert forall|k: int| 0 <= k < d.data_sections@.len() implies !d.data_sections@[k].executable
        && d.data_sections@[k].offset != 0 && d.data_sections@[k].size != 0 && exists|i: int|
        0 <= i < 11 && #[trigger] from_data_slot(data, d.data_sections@[k]@, i) by {
        assert(d.data_sections@[k]@ == dt[k]);
        let i = choose|i: int| 0 <= i < 11 && #[trigger] from_slot(data, dt[k], false, i);
        assert(from_data_slot(data, d.data_sections@[k]@, i));
    }
    assert forall|i: int| 0 <= i < 11 && #[trigger] data_slot_used(data, i) implies exists|k: int|
        0 <= k < d.data_sections@.len() && #[trigger] from_data_slot(data, d.data_sections@[k]@, i) by {
        assert(slot_used(data, false, i));
        let k = choose|k: int| 0 <= k < dt.len() && #[trigger] from_slot(data, dt[k], false, i);
        assert(d.data_sections@[k]@ == dt[k]);
        assert(from_data_slot(data, d.data_sections@[k]@, i));
    }
}

} // verus!
