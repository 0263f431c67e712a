//! The ELF32 side of the interpreter: little-endian byte order, the
//! program image the loader hands to the machine, and the byte-level
//! parser that extracts that image from an ELF32 executable.

use vstd::prelude::*;

verus! {

/// The little-endian 32-bit word the four bytes encode.
pub open spec fn word_of_bytes(b0: u8, b1: u8, b2: u8, b3: u8) -> u32 {
    (b0 as u32) | ((b1 as u32) << 8) | ((b2 as u32) << 16) | ((b3 as u32) << 24)
}

/// Byte `i` of the sequence, or zero past its end.
pub open spec fn byte_or_zero(s: Seq<u8>, i: int) -> u8 {
    if 0 <= i < s.len() {
        s[i]
    } else {
        0
    }
}

/// What `u32_le` returns: the little-endian word of the first four
/// bytes, with missing bytes read as zero.
pub open spec fn spec_u32_le(s: Seq<u8>) -> u32 {
    word_of_bytes(byte_or_zero(s, 0), byte_or_zero(s, 1), byte_or_zero(s, 2), byte_or_zero(s, 3))
}

/// Reads a little-endian 32-bit word from up to four bytes, padding
/// with zeros when fewer are given.
pub fn u32_le(data: &[u8]) -> (r: u32)
    ensures
        r == spec_u32_le(data@),
{
    let b0: u8 = if data.len() > 0 {
        data[0]
    } else {
        0
    };
    let b1: u8 = if data.len() > 1 {
        data[1]
    } else {
        0
    };
    let b2: u8 = if data.len() > 2 {
        data[2]
    } else {
        0
    };
    let b3: u8 = if data.len() > 3 {
        data[3]
    } else {
        0
    };
    (b0 as u32) | ((b1 as u32) << 8) | ((b2 as u32) << 16) | ((b3 as u32) << 24)
}

/// Whether a loadable segment holds code (read and execute) or data
/// (read and write).
#[derive(Clone, Copy, Debug, PartialEq, Eq, Structural)]
pub enum SegmentKind {
    Code,
    Data,
}

/// One loadable segment: its bytes, the virtual address they are copied
/// to, and whether they are code or data.
#[derive(Debug)]
pub struct Segment {
    pub virtual_address: u32,
    pub bytes: Vec<u8>,
    pub kind: SegmentKind,
}

/// The mathematical reading of a [`Segment`].
pub ghost struct SegmentView {
    pub virtual_address: u32,
    pub bytes: Seq<u8>,
    pub kind: SegmentKind,
}

impl View for Segment {
    type V = SegmentView;

    open spec fn view(&self) -> SegmentView {
        SegmentView { virtual_address: self.virtual_address, bytes: self.bytes@, kind: self.kind }
    }
}

/// What the loader produces: the entry point and the ordered loadable
/// segments of the executable.
#[derive(Debug)]
pub struct ProgramImage {
    pub entry_point: u32,
    pub segments: Vec<Segment>,
}

/// The mathematical reading of a [`ProgramImage`].
pub ghost struct ProgramImageView {
    pub entry_point: u32,
    pub segments: Seq<SegmentView>,
}

/// The segment sequence read segment by segment.
pub open spec fn segments_view(segs: Seq<Segment>) -> Seq<SegmentView> {
    segs.map_values(|seg: Segment| seg@)
}

impl View for ProgramImage {
    type V = ProgramImageView;

    open spec fn view(&self) -> ProgramImageView {
        ProgramImageView { entry_point: self.entry_point, segments: segments_view(self.segments@) }
    }
}

impl ProgramImageView {
    /// Each segment fits the 32-bit address space.
    pub open spec fn wf(self) -> bool {
        forall|j: int|
            0 <= j < self.segments.len() ==> (#[trigger] self.segments[j]).bytes.len()
                <= 0x1_0000_0000
    }
}

/// Why a byte sequence is not an acceptable ELF32 executable for this
/// machine: too short for a read the format calls for, a wrong magic
/// number, not 32-bit, not little-endian, not an executable, not
/// RISC-V, or a loadable segment whose flags name neither code (read
/// and execute) nor data (read and write).
#[derive(Clone, Copy, Debug, PartialEq, Eq, Structural)]
pub enum ElfError {
    Truncated,
    BadMagic,
    UnsupportedClass,
    UnsupportedEndianness,
    UnsupportedType,
    UnsupportedMachine,
    BadSegmentFlags,
}

/// The fields the executable's header contributes: the entry point and
/// where the program header table is and how it is laid out.
#[derive(Clone, Copy, Debug, PartialEq, Eq, Structural)]
pub struct ElfHeaderInfo {
    pub entry_point: u32,
    pub program_header_table_offset: u32,
    pub program_header_entry_size: u32,
    pub program_entry_count: u32,
}

/// The little-endian word at offset `off`.
pub open spec fn word_at(s: Seq<u8>, off: int) -> u32
    recommends
        0 <= off,
        off + 4 <= s.len(),
{
    word_of_bytes(s[off], s[off + 1], s[off + 2], s[off + 3])
}

/// The little-endian halfword at offset `off`, as a 32-bit value.
pub open spec fn half_at(s: Seq<u8>, off: int) -> u32
    recommends
        0 <= off,
        off + 2 <= s.len(),
{
    word_of_bytes(s[off], s[off + 1], 0, 0)
}

/// What parsing the ELF header yields. The checks come in the order the
/// fields stand in the file: the magic number, the 32-bit class, the
/// little-endian encoding, the executable type, and the RISC-V machine
/// type; then the entry point (offset 0x18), the program header table
/// offset (0x1c), and the table's entry size and count (0x2a, 0x2c).
pub open spec fn spec_parse_elf_header(s: Seq<u8>) -> Result<ElfHeaderInfo, ElfError> {
    if s.len() < 0x2e {
        Err(ElfError::Truncated)
    } else if !(s[0] == 0x7f && s[1] == 0x45 && s[2] == 0x4c && s[3] == 0x46) {
        Err(ElfError::BadMagic)
    } else if s[4] != 1 {
        Err(ElfError::UnsupportedClass)
    } else if s[5] != 1 {
        Err(ElfError::UnsupportedEndianness)
    } else if s[0x10] != 2 {
        Err(ElfError::UnsupportedType)
    } else if s[0x12] != 0xf3 {
        Err(ElfError::UnsupportedMachine)
    } else {
        Ok(
            ElfHeaderInfo {
                entry_point: word_at(s, 0x18),
                program_header_table_offset: word_at(s, 0x1c),
                program_header_entry_size: half_at(s, 0x2a),
                program_entry_count: half_at(s, 0x2c),
            },
        )
    }
}

/// The little-endian word at offset `off`, as executable code.
fn word_at_exec(s: &[u8], off: usize) -> (r: u32)
    requires
        off + 4 <= s@.len(),
    ensures
        r == word_at(s@, off as int),
{
    let _n: usize = s.len();
    u32_le(&s[off..off + 4])
}

/// The little-endian halfword at offset `off`, as executable code.
fn half_at_exec(s: &[u8], off: usize) -> (r: u32)
    requires
        off + 2 <= s@.len(),
    ensures
        r == half_at(s@, off as int),
{
    let _n: usize = s.len();
    u32_le(&s[off..off + 2])
}

/// Parses the ELF header: checks the magic number, class, endianness,
/// type and machine, and extracts the entry point and the program
/// header table's position, entry size and entry count.
pub fn parse_elf_header(bytes: &[u8]) -> (r: Result<ElfHeaderInfo, ElfError>)
    ensures
        r == spec_parse_elf_header(bytes@),
{
    if bytes.len() < 0x2e {
        return Err(ElfError::Truncated);
    }
    // verify the magic number
    if !(bytes[0] == 0x7f && bytes[1] == 0x45 && bytes[2] == 0x4c && bytes[3] == 0x46) {
        return Err(ElfError::BadMagic);
    }
    // the class must be 32 bits
    if bytes[4] != 0x01 {
        return Err(ElfError::UnsupportedClass);
    }
    // ensure little-endian
    if bytes[5] != 0x01 {
        return Err(ElfError::UnsupportedEndianness);
    }
    // ensure the file type is executable
    if bytes[0x10] != 0x02 {
        return Err(ElfError::UnsupportedType);
    }
    // ensure the machine type is RISC-V (0xF3)
    if bytes[0x12] != 0xf3 {
        return Err(ElfError::UnsupportedMachine);
    }
    // extract the entry point, the program header table offset, and the
    // table's entry size and entry count
    let entry_point = word_at_exec(bytes, 0x18);
    let program_header_table_offset = word_at_exec(bytes, 0x1c);
    let program_header_entry_size = half_at_exec(bytes, 0x2a);
    let program_entry_count = half_at_exec(bytes, 0x2c);

    Ok(
        ElfHeaderInfo {
            entry_point,
            program_header_table_offset,
            program_header_entry_size,
            program_entry_count,
        },
    )
}

/// One loadable program header: the segment's bytes, its virtual
/// address, and whether it is code (`true`) or data (`false`).
#[derive(Debug)]
pub struct ProgramHeaderInfo {
    pub data: Vec<u8>,
    pub virtual_address: u32,
    // true = code segment, false = data segment
    pub code: bool,
}

/// The mathematical reading of a [`ProgramHeaderInfo`].
pub ghost struct ProgramHeaderInfoView {
    pub data: Seq<u8>,
    pub virtual_address: u32,
    pub code: bool,
}

impl View for ProgramHeaderInfo {
    type V = ProgramHeaderInfoView;

    open spec fn view(&self) -> ProgramHeaderInfoView {
        ProgramHeaderInfoView {
            data: self.data@,
            virtual_address: self.virtual_address,
            code: self.code,
        }
    }
}

/// What parsing one program header at `offset` yields: `None` for a
/// header that is not of the LOAD type; otherwise the `p_filesz` bytes
/// at `p_offset`, the virtual address, and the reading of the flags
/// (5 = read and execute = code, 6 = read and write = data). A header
/// or segment that reaches past the end of the file is an error, as are
/// flags that name neither code nor data.
pub open spec fn spec_parse_program_header(s: Seq<u8>, offset: u32) -> Result<
    Option<ProgramHeaderInfoView>,
    ElfError,
> {
    if offset + 0x1c > s.len() {
        Err(ElfError::Truncated)
    } else {
        let p_type = word_at(s, offset as int);
        if p_type != 1 {
            Ok(None)
        } else {
            let p_offset = word_at(s, offset + 4);
            let virtual_address = word_at(s, offset + 8);
            let p_filesz = word_at(s, offset + 0x10);
            let p_flags = word_at(s, offset + 0x18);
            if p_offset + p_filesz > s.len() {
                Err(ElfError::Truncated)
            } else if p_flags == 5 {
                Ok(
                    Some(
                        ProgramHeaderInfoView {
                            data: s.subrange(p_offset as int, p_offset + p_filesz),
                            virtual_address,
                            code: true,
                        },
                    ),
                )
            } else if p_flags == 6 {
                Ok(
                    Some(
                        ProgramHeaderInfoView {
                            data: s.subrange(p_offset as int, p_offset + p_filesz),
                            virtual_address,
                            code: false,
                        },
                    ),
                )
            } else {
                // neither code nor data
                Err(ElfError::BadSegmentFlags)
            }
        }
    }
}

/// The parse result read value by value.
pub open spec fn ph_result_view(r: Result<Option<ProgramHeaderInfo>, ElfError>) -> Result<
    Option<ProgramHeaderInfoView>,
    ElfError,
> {
    match r {
        Ok(Some(ph)) => Ok(Some(ph@)),
        Ok(None) => Ok(None),
        Err(e) => Err(e),
    }
}

/// The `count` bytes of `s` starting at `start`, as an owned vector.
fn copy_range(s: &[u8], start: usize, count: usize) -> (out: Vec<u8>)
    requires
        start + count <= s@.len(),
    ensures
        out@ == s@.subrange(start as int, start + count),
{
    let mut out: Vec<u8> = Vec::new();
    let mut k: usize = 0;
    while k < count
        invariant
            k <= count,
            start + count <= s@.len(),
            out@ =~= s@.subrange(start as int, start + k),
        decreases count - k,
    {
        let _n: usize = s.len();
        out.push(s[start + k]);
        proof {
            assert(s@.subrange(start as int, start + k + 1) =~= s@.subrange(
                start as int,
                start + k,
            ).push(s@[start + k]));
        }
        k = k + 1;
    }
    out
}

/// Parses the program header at `offset`: `Ok(None)` for a header that
/// is not of the LOAD type, otherwise the segment's bytes, virtual
/// address, and whether it holds code or data.
pub fn parse_program_header(bytes: &[u8], offset: u32) -> (r: Result<
    Option<ProgramHeaderInfo>,
    ElfError,
>)
    ensures
        ph_result_view(r) == spec_parse_program_header(bytes@, offset),
{
    if offset as u64 + 0x1c > bytes.len() as u64 {
        return Err(ElfError::Truncated);
    }
    let off = offset as usize;

    // read the header type; only LOAD headers contribute a segment
    let p_type = word_at_exec(bytes, off);
    if p_type != 1 {
        return Ok(None);
    }

    let p_offset = word_at_exec(bytes, off + 4);
    let virtual_address = word_at_exec(bytes, off + 8);
    let p_filesz = word_at_exec(bytes, off + 0x10);
    let p_flags = word_at_exec(bytes, off + 0x18);

    if p_offset as u64 + p_filesz as u64 > bytes.len() as u64 {
        return Err(ElfError::Truncated);
    }

    // read the header body
    let header_body = copy_range(bytes, p_offset as usize, p_filesz as usize);

    // decode the flags:
    // EXECUTABLE (E) = 1, WRITABLE (W) = 2, READABLE (R) = 4
    // code = R + E = 4 + 1 = 5, data = R + W = 4 + 2 = 6
    let is_code = if p_flags == 5 {
        true
    } else if p_flags == 6 {
        false
    } else {
        // neither code nor data
        return Err(ElfError::BadSegmentFlags);
    };

    Ok(Some(ProgramHeaderInfo { data: header_body, virtual_address, code: is_code }))
}

/// The segment a loadable program header contributes.
pub open spec fn segment_of_header(ph: ProgramHeaderInfoView) -> SegmentView {
    SegmentView {
        virtual_address: ph.virtual_address,
        bytes: ph.data,
        kind: if ph.code {
            SegmentKind::Code
        } else {
            SegmentKind::Data
        },
    }
}

/// The segments the first `n` program headers contribute, in table
/// order. Header `k` stands at `k * program_header_entry_size +
/// program_header_table_offset`; an offset beyond the 32-bit range is
/// an error, headers that are not of the LOAD type contribute nothing,
/// and errors end the collection.
pub open spec fn spec_collect_segments(s: Seq<u8>, h: ElfHeaderInfo, n: int) -> Result<
    Seq<SegmentView>,
    ElfError,
>
    decreases n,
{
    if n <= 0 {
        Ok(Seq::empty())
    } else {
        match spec_collect_segments(s, h, n - 1) {
            Err(e) => Err(e),
            Ok(segs) => {
                let off = (n - 1) * h.program_header_entry_size + h.program_header_table_offset;
                if off > u32::MAX {
                    Err(ElfError::Truncated)
                } else {
                    match spec_parse_program_header(s, off as u32) {
                        Err(e) => Err(e),
                        Ok(None) => Ok(segs),
                        Ok(Some(ph)) => Ok(segs.push(segment_of_header(ph))),
                    }
                }
            },
        }
    }
}

/// What parsing a whole executable yields: the header's entry point and
/// the segments its program header table contributes.
pub open spec fn spec_parse_elf(s: Seq<u8>) -> Result<ProgramImageView, ElfError> {
    match spec_parse_elf_header(s) {
        Err(e) => Err(e),
        Ok(h) => match spec_collect_segments(s, h, h.program_entry_count as int) {
            Err(e) => Err(e),
            Ok(segs) => Ok(ProgramImageView { entry_point: h.entry_point, segments: segs }),
        },
    }
}

/// The parse result read value by value.
pub open spec fn image_result_view(r: Result<ProgramImage, ElfError>) -> Result<
    ProgramImageView,
    ElfError,
> {
    match r {
        Ok(img) => Ok(img@),
        Err(e) => Err(e),
    }
}

/// Once the collection has failed, collecting further headers fails the
/// same way.
proof fn lemma_collect_error_persists(s: Seq<u8>, h: ElfHeaderInfo, n: int, m: int)
    requires
        0 <= n <= m,
        spec_collect_segments(s, h, n) is Err,
    ensures
        spec_collect_segments(s, h, m) == spec_collect_segments(s, h, n),
    decreases m - n,
{
    if m > n {
        lemma_collect_error_persists(s, h, n, m - 1);
    }
}

/// Parses an ELF32 executable into a program image: the entry point
/// from the header, and one segment for each program header of the
/// LOAD type, in table order.
pub fn parse_elf(bytes: &[u8]) -> (r: Result<ProgramImage, ElfError>)
    ensures
        image_result_view(r) == spec_parse_elf(bytes@),
        r matches Ok(img) ==> img@.wf(),
{
    let header_info = match parse_elf_header(bytes) {
        Ok(h) => h,
        Err(e) => return Err(e),
    };

    let mut segments: Vec<Segment> = Vec::new();
    proof {
        assert(segments_view(segments@) =~= Seq::<SegmentView>::empty());
    }
    let mut i: u32 = 0;
    while i < header_info.program_entry_count
        invariant
            i <= header_info.program_entry_count,
            spec_parse_elf_header(bytes@) == Ok::<ElfHeaderInfo, ElfError>(header_info),
            spec_collect_segments(bytes@, header_info, i as int) == Ok::<
                Seq<SegmentView>,
                ElfError,
            >(segments_view(segments@)),
            forall|j: int|
                0 <= j < segments@.len() ==> (#[trigger] segments@[j]).bytes@.len()
                    <= 0x1_0000_0000,
        decreases header_info.program_entry_count - i,
    {
        proof {
            assert((i as int) * (header_info.program_header_entry_size as int) <= 0xffff_ffff
                * 0xffff_ffff) by (nonlinear_arith)
                requires
                    0 <= i <= 0xffff_ffffu32,
                    0 <= header_info.program_header_entry_size <= 0xffff_ffffu32,
            ;
        }
        let off64 = i as u64 * header_info.program_header_entry_size as u64
            + header_info.program_header_table_offset as u64;
        if off64 > u32::MAX as u64 {
            proof {
                lemma_collect_error_persists(
                    bytes@,
                    header_info,
                    i + 1,
                    header_info.program_entry_count as int,
                );
            }
            return Err(ElfError::Truncated);
        }
        match parse_program_header(bytes, off64 as u32) {
            Err(e) => {
                proof {
                    lemma_collect_error_persists(
                        bytes@,
                        header_info,
                        i + 1,
                        header_info.program_entry_count as int,
                    );
                }
                return Err(e);
            },
            Ok(None) => {},
            Ok(Some(ph)) => {
                let kind = if ph.code {
                    SegmentKind::Code
                } else {
                    SegmentKind::Data
                };
                let ghost ph_view = ph@;
                let ghost segments_before = segments@;
                segments.push(
                    Segment { virtual_address: ph.virtual_address, bytes: ph.data, kind },
                );
                proof {
                    assert(segments_view(segments@) =~= segments_view(segments_before).push(
                        segment_of_header(ph_view),
                    ));
                }
            },
        }
        i = i + 1;
    }
    Ok(ProgramImage { entry_point: header_info.entry_point, segments })
}

} // verus!
