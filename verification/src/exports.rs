//! The names that a library exports, and the module definitions that forward them.
use pelite::pe64::{Pe, PeFile};
use vstd::prelude::*;
use vstd::utf8::{decode_utf8, valid_utf8};

use crate::text::{holds_at, texts};

verus! {

/// How far reading the export table of a file got before it failed.
#[derive(Debug, Clone, Copy, PartialEq, Eq, Structural)]
pub enum ExportStage {
    /// The headers of the file.
    Headers,
    /// Its export directory.
    Directory,
    /// The tables of the directory.
    Tables,
}

/// Why the names of the exports cannot be had.
#[derive(Debug)]
pub enum ExportError {
    /// What leads to the exports does not lie where its fields are aligned.
    Misaligned,
    /// The file is not what it should be: where, and in which words.
    Malformed(ExportStage, String),
    /// A name is not UTF-8.
    NotUtf8(Vec<u8>),
}

/// The two-byte number at an offset, least byte first.
pub open spec fn u16_at(image: Seq<u8>, at: int) -> int {
    image[at] + 256 * image[at + 1]
}

/// The four-byte number at an offset, least byte first.
pub open spec fn u32_at(image: Seq<u8>, at: int) -> int {
    u16_at(image, at) + 65536 * u16_at(image, at + 2)
}

fn read_u16(image: &[u8], at: usize) -> (n: u16)
    requires
        at + 2 <= image@.len(),
    ensures
        n == u16_at(image@, at as int),
{
    image[at] as u16 + 256 * image[at + 1] as u16
}

fn read_u32(image: &[u8], at: usize) -> (n: u32)
    requires
        at + 4 <= image@.len(),
    ensures
        n == u32_at(image@, at as int),
{
    let len: usize = image.len();
    assert(at + 4 <= len);
    read_u16(image, at) as u32 + 65536 * read_u16(image, at + 2) as u32
}

/// The offset of the PE header, as the DOS header gives it.
pub open spec fn pe_header(image: Seq<u8>) -> int {
    u32_at(image, 0x3c)
}

/// The offset of the first section header.
pub open spec fn section_headers(image: Seq<u8>) -> int {
    pe_header(image) + 24 + u16_at(image, pe_header(image) + 20)
}

/// The number of sections.
pub open spec fn section_count(image: Seq<u8>) -> int {
    u16_at(image, pe_header(image) + 6)
}

/// The number of data directories, of which there are at most sixteen.
pub open spec fn directory_count(image: Seq<u8>) -> int {
    let count = u32_at(image, pe_header(image) + 132);
    if count < 16 {
        count
    } else {
        16
    }
}

/// Whether a file starts with the headers of a 64-bit image, and all of them lie within it.
pub open spec fn is_image(image: Seq<u8>) -> bool {
    let header = pe_header(image);
    &&& image.len() >= 64
    &&& u16_at(image, 0) == 0x5a4d
    &&& header % 4 == 0
    &&& header <= 0x0100_0000
    &&& header + 136 <= image.len()
    &&& u32_at(image, header) == 0x4550
    &&& u16_at(image, header + 24) == 0x20b
    &&& u32_at(image, header + 84) <= image.len()
    &&& u32_at(image, header + 84) <= u32_at(image, header + 80)
    &&& header + 136 + 8 * directory_count(image) <= image.len()
    &&& section_count(image) <= 96
    &&& section_headers(image) + 40 * section_count(image) <= image.len()
}

fn check_image(image: &[u8]) -> (valid: bool)
    ensures
        valid == is_image(image@),
{
    let len: usize = image.len();
    if len < 64 || read_u16(image, 0) != 0x5a4d {
        return false;
    }
    let header: usize = read_u32(image, 0x3c) as usize;
    if header % 4 != 0 || header > 0x0100_0000 || header + 136 > len {
        return false;
    }
    let size_of_headers: u32 = read_u32(image, header + 84);
    if read_u32(image, header) != 0x4550 || read_u16(image, header + 24) != 0x20b
        || size_of_headers as usize > len || size_of_headers > read_u32(image, header + 80) {
        return false;
    }
    let given: u32 = read_u32(image, header + 132);
    let directories: usize = if given < 16 {
        given as usize
    } else {
        16
    };
    let count: usize = read_u16(image, header + 6) as usize;
    if header + 136 + 8 * directories > len || count > 96 {
        return false;
    }
    let first: usize = header + 24 + read_u16(image, header + 20) as usize;
    first + 40 * count <= len
}

/// Whether an address lies in a section, whose end may wrap around.
pub open spec fn section_covers(image: Seq<u8>, i: int, rva: int) -> bool {
    let at = section_headers(image) + 40 * i;
    let in_memory = u32_at(image, at + 8);
    let in_file = u32_at(image, at + 16);
    let size = if in_memory > in_file {
        in_memory
    } else {
        in_file
    };
    u32_at(image, at + 12) <= rva < (u32_at(image, at + 12) + size) % 0x1_0000_0000
}

/// The first section that an address lies in, from one of them on.
pub open spec fn section_of(image: Seq<u8>, rva: int, from: int) -> Option<int>
    decreases section_count(image) - from,
{
    if from < 0 || from >= section_count(image) {
        None
    } else if section_covers(image, from, rva) {
        Some(from)
    } else {
        section_of(image, rva, from + 1)
    }
}

/// Where in the file the `size` bytes at an address are, if the section has that many in it.
pub open spec fn place_of(image: Seq<u8>, rva: int, size: int) -> Option<int> {
    match section_of(image, rva, 0) {
        None => None,
        Some(i) => {
            let at = section_headers(image) + 40 * i;
            let start = u32_at(image, at + 20);
            let end = (start + u32_at(image, at + 16)) % 0x1_0000_0000;
            let place = start + (rva - u32_at(image, at + 12));
            if start <= end && end <= image.len() && place + size <= end {
                Some(place)
            } else {
                None
            }
        },
    }
}

fn locate(image: &[u8], rva: u32, size: u64) -> (place: Option<usize>)
    requires
        is_image(image@),
        size <= 4 * u32::MAX,
    ensures
        match place {
            Some(at) => place_of(image@, rva as int, size as int) == Some(at as int) && at + size
                <= image@.len(),
            None => place_of(image@, rva as int, size as int) is None,
        },
{
    let len: usize = image.len();
    let header: usize = read_u32(image, 0x3c) as usize;
    let first: usize = header + 24 + read_u16(image, header + 20) as usize;
    let count: usize = read_u16(image, header + 6) as usize;
    let mut i: usize = 0;
    while i < count
        invariant
            i <= count <= 96,
            len == image@.len(),
            first == section_headers(image@),
            count == section_count(image@),
            first + 40 * count <= len,
            size <= 4 * u32::MAX,
            section_of(image@, rva as int, 0) == section_of(image@, rva as int, i as int),
        decreases count - i,
    {
        let at: usize = first + 40 * i;
        let in_memory: u32 = read_u32(image, at + 8);
        let address: u32 = read_u32(image, at + 12);
        let in_file: u32 = read_u32(image, at + 16);
        let start: u32 = read_u32(image, at + 20);
        let larger: u32 = if in_memory > in_file {
            in_memory
        } else {
            in_file
        };
        let address_end: u64 = (address as u64 + larger as u64) % 0x1_0000_0000;
        if address <= rva && (rva as u64) < address_end {
            let end: u64 = (start as u64 + in_file as u64) % 0x1_0000_0000;
            let place: u64 = start as u64 + (rva - address) as u64;
            if start as u64 <= end && end <= len as u64 && place + size <= end {
                return Some(place as usize);
            }
            return None;
        }
        i += 1;
    }
    None
}

/// Whether a table at an address cannot be had at all: nothing of the file is then looked at.
pub open spec fn table_fails(image: Seq<u8>, rva: int, size: int, align: int) -> bool {
    rva != 0 && (rva % align != 0 || place_of(image, rva, size) is None)
}

/// Whether a table that can be had lies in the file at an offset that is aligned.
pub open spec fn table_is_aligned(image: Seq<u8>, rva: int, size: int, align: int) -> bool {
    rva != 0 && rva % align == 0 ==> (place_of(image, rva, size) matches Some(at) ==> at % align
        == 0)
}

/// Whether the tables of an export directory are aligned: the functions, the names and the
/// ordinals, up to the first that cannot be had.
pub open spec fn tables_are_aligned(image: Seq<u8>, directory: int) -> bool {
    let functions = u32_at(image, directory + 28);
    let names = u32_at(image, directory + 32);
    let ordinals = u32_at(image, directory + 36);
    let function_count = u32_at(image, directory + 20);
    let name_count = u32_at(image, directory + 24);
    &&& table_is_aligned(image, functions, 4 * function_count, 4)
    &&& !table_fails(image, functions, 4 * function_count, 4) ==> {
        &&& table_is_aligned(image, names, 4 * name_count, 4)
        &&& !table_fails(image, names, 4 * name_count, 4) ==> table_is_aligned(
            image,
            ordinals,
            2 * name_count,
            2,
        )
    }
}

/// The address of the export directory, where there may be one.
pub open spec fn export_address(image: Seq<u8>) -> Option<int> {
    let rva = u32_at(image, pe_header(image) + 136);
    if is_image(image) && directory_count(image) > 0 && rva != 0 && rva % 4 == 0 {
        Some(rva)
    } else {
        None
    }
}

/// Whether everything that leads to the exports of a file lies where its fields are aligned: the
/// section headers, the export directory and its tables. Other parts of the file do not matter,
/// and a file without an export directory has nothing to align.
pub open spec fn is_aligned(image: Seq<u8>) -> bool {
    export_address(image) matches Some(rva) ==> {
        &&& section_headers(image) % 4 == 0
        &&& place_of(image, rva, 40) matches Some(directory) ==> directory % 4 == 0
            && tables_are_aligned(image, directory)
    }
}

/// Tells of a table whether it is aligned, and whether it cannot be had at all.
fn check_table(image: &[u8], rva: u32, size: u64, align: u32) -> (state: (bool, bool))
    requires
        is_image(image@),
        size <= 4 * u32::MAX,
        align == 2 || align == 4,
    ensures
        state.0 == table_is_aligned(image@, rva as int, size as int, align as int),
        state.1 == table_fails(image@, rva as int, size as int, align as int),
{
    if rva == 0 {
        return (true, false);
    }
    if rva % align != 0 {
        return (true, true);
    }
    match locate(image, rva, size) {
        None => (true, true),
        Some(at) => (at % align as usize == 0, false),
    }
}

fn check_tables(image: &[u8], directory: usize) -> (aligned: bool)
    requires
        is_image(image@),
        directory + 40 <= image@.len(),
    ensures
        aligned == tables_are_aligned(image@, directory as int),
{
    let len: usize = image.len();
    assert(directory + 40 <= len);
    let function_count: u64 = read_u32(image, directory + 20) as u64;
    let name_count: u64 = read_u32(image, directory + 24) as u64;
    let (aligned, fails) = check_table(
        image,
        read_u32(image, directory + 28),
        4 * function_count,
        4,
    );
    if !aligned || fails {
        return aligned;
    }
    let (aligned, fails) = check_table(image, read_u32(image, directory + 32), 4 * name_count, 4);
    if !aligned || fails {
        return aligned;
    }
    check_table(image, read_u32(image, directory + 36), 2 * name_count, 2).0
}

fn check_alignment(image: &[u8]) -> (aligned: bool)
    ensures
        aligned == is_aligned(image@),
{
    if !check_image(image) {
        return true;
    }
    let len: usize = image.len();
    let header: usize = read_u32(image, 0x3c) as usize;
    if read_u32(image, header + 132) == 0 {
        return true;
    }
    let rva: u32 = read_u32(image, header + 136);
    if rva == 0 || rva % 4 != 0 {
        return true;
    }
    let first: usize = header + 24 + read_u16(image, header + 20) as usize;
    if first % 4 != 0 {
        return false;
    }
    match locate(image, rva, 40) {
        None => true,
        Some(directory) => directory % 4 == 0 && check_tables(image, directory),
    }
}

/// How far behind a multiple of eight a copy of a file has to start for its PE header to lie at
/// one. A PE header lies at a multiple of four.
pub open spec fn header_lead(image: Seq<u8>) -> int {
    if image.len() >= 64 && pe_header(image) % 8 == 4 {
        4
    } else {
        0
    }
}

fn find_lead(image: &[u8]) -> (lead: usize)
    ensures
        lead == header_lead(image@),
{
    if image.len() >= 64 && read_u32(image, 0x3c) % 8 == 4 {
        4
    } else {
        0
    }
}

/// The names in the export table of a file, in the order of the table, with nothing for a name
/// that cannot be read; or how far reading got and what `pelite` says of it.
pub uninterp spec fn export_table(image: Seq<u8>) -> Result<
    Seq<Option<Seq<u8>>>,
    (ExportStage, Seq<char>),
>;

/// The bytes of each name, as [`export_table`] has them.
pub open spec fn table_view(table: Seq<Option<Vec<u8>>>) -> Seq<Option<Seq<u8>>> {
    Seq::new(
        table.len(),
        |i: int|
            match table[i] {
                Some(name) => Some(name@),
                None => None,
            },
    )
}

/// Reads the export table of a file with `pelite`: `PeFile::from_bytes` on a copy that starts
/// `lead` bytes behind a multiple of eight, then `Pe::exports`, `Exports::by`, and
/// `By::name_of_hint` for each entry of `By::names`. What they return is a function of the bytes of
/// the file, since all else they look at is whether addresses are multiples of two and of four;
/// that function has the name [`export_table`], of which nothing more is stated. With another lead,
/// or in a file that is not aligned, they would read fields through misaligned references.
#[verifier::external_body]
fn read_export_table(image: &[u8], lead: usize) -> (res: Result<
    Vec<Option<Vec<u8>>>,
    (ExportStage, String),
>)
    requires
        is_aligned(image@),
        lead == header_lead(image@),
    ensures
        match (res, export_table(image@)) {
            (Ok(table), Ok(named)) => table_view(table@) == named,
            (Err((stage, words)), Err((named_stage, named_words))) => stage == named_stage
                && words@ == named_words,
            _ => false,
        },
{
    let mut copy = vec![0u8; image.len() + 16];
    let start = 8 - copy.as_ptr() as usize % 8 + lead;
    let bytes = &mut copy[start..start + image.len()];
    bytes.copy_from_slice(image);
    let file = PeFile::from_bytes(bytes).map_err(|e| (ExportStage::Headers, e.to_string()))?;
    let exports = file.exports().map_err(|e| (ExportStage::Directory, e.to_string()))?;
    let by = exports.by().map_err(|e| (ExportStage::Tables, e.to_string()))?;
    let hints = 0..by.names().len();
    Ok(hints.map(|i| by.name_of_hint(i).ok().map(|name| name.to_vec())).collect())
}

/// Decodes UTF-8 with `str::from_utf8`, which succeeds on valid UTF-8 only and then gives the
/// characters that it encodes.
#[verifier::external_body]
fn utf8_text(bytes: &Vec<u8>) -> (name: Option<String>)
    ensures
        match name {
            Some(name) => valid_utf8(bytes@) && name@ == decode_utf8(bytes@),
            None => !valid_utf8(bytes@),
        },
{
    std::str::from_utf8(bytes).ok().map(|name| name.to_owned())
}

/// The names of a table that can be read, in order; or the first of them that is not UTF-8.
pub open spec fn names_of(table: Seq<Option<Seq<u8>>>) -> Result<Seq<Seq<char>>, Seq<u8>>
    decreases table.len(),
{
    if table.len() == 0 {
        Ok(Seq::empty())
    } else {
        match (names_of(table.drop_last()), table.last()) {
            (Err(bytes), _) => Err(bytes),
            (Ok(names), None) => Ok(names),
            (Ok(names), Some(bytes)) => if valid_utf8(bytes) {
                Ok(names.push(decode_utf8(bytes)))
            } else {
                Err(bytes)
            },
        }
    }
}

proof fn lemma_error_stays(table: Seq<Option<Seq<u8>>>, i: int)
    requires
        0 <= i <= table.len(),
        names_of(table.take(i)) is Err,
    ensures
        names_of(table) == names_of(table.take(i)),
    decreases table.len() - i,
{
    if i < table.len() {
        assert(table.take(i + 1).drop_last() =~= table.take(i));
        lemma_error_stays(table, i + 1);
    } else {
        assert(table.take(i) =~= table);
    }
}

/// The names keep the order of the table, and none is left out or added: the names of a table in
/// two parts are those of the first part and then those of the second.
pub proof fn law_names_keep_their_order(
    first: Seq<Option<Seq<u8>>>,
    second: Seq<Option<Seq<u8>>>,
)
    requires
        names_of(first) is Ok,
        names_of(second) is Ok,
    ensures
        names_of(first + second) == Ok::<Seq<Seq<char>>, Seq<u8>>(
            names_of(first)->Ok_0 + names_of(second)->Ok_0,
        ),
    decreases second.len(),
{
    if second.len() == 0 {
        assert(first + second =~= first);
        assert(names_of(first)->Ok_0 + names_of(second)->Ok_0 =~= names_of(first)->Ok_0);
    } else {
        assert((first + second).drop_last() =~= first + second.drop_last());
        law_names_keep_their_order(first, second.drop_last());
        assert(names_of(first + second)->Ok_0 =~= names_of(first)->Ok_0 + names_of(second)->Ok_0);
    }
}

/// Collects the names of a table that can be read.
pub fn collect_names(table: &Vec<Option<Vec<u8>>>) -> (res: Result<Vec<String>, Vec<u8>>)
    ensures
        match (res, names_of(table_view(table@))) {
            (Ok(names), Ok(wanted)) => texts(names@) == wanted,
            (Err(bytes), Err(wanted)) => bytes@ == wanted,
            _ => false,
        },
{
    let ghost all = table_view(table@);
    let mut names: Vec<String> = Vec::new();
    let mut i: usize = 0;
    assert(all.take(0) =~= Seq::empty());
    assert(texts(names@) =~= Seq::empty());
    while i < table.len()
        invariant
            i <= table@.len(),
            all == table_view(table@),
            names_of(all.take(i as int)) == Ok::<Seq<Seq<char>>, Seq<u8>>(texts(names@)),
        decreases table.len() - i,
    {
        let ghost before = names@;
        assert(all.take(i as int + 1).drop_last() =~= all.take(i as int));
        match &table[i] {
            Some(bytes) => match utf8_text(bytes) {
                Some(name) => {
                    names.push(name);
                    assert(texts(names@) =~= texts(before).push(decode_utf8(bytes@)));
                },
                None => {
                    proof {
                        lemma_error_stays(all, i as int + 1);
                    }
                    let mut copy: Vec<u8> = Vec::new();
                    copy.extend_from_slice(bytes.as_slice());
                    assert(copy@ =~= bytes@);
                    return Err(copy);
                },
            },
            None => {},
        }
        i += 1;
    }
    assert(all.take(i as int) =~= all);
    Ok(names)
}

/// What [`read_named_exports`] returns for a file.
pub open spec fn named_exports(
    image: Seq<u8>,
    table: Result<Seq<Option<Seq<u8>>>, (ExportStage, Seq<char>)>,
    res: Result<Vec<String>, ExportError>,
) -> bool {
    if !is_aligned(image) {
        res matches Err(e) && e is Misaligned
    } else {
        match table {
            Err((stage, words)) => res matches Err(ExportError::Malformed(s, w)) && s == stage && w@
                == words,
            Ok(table) => match names_of(table) {
                Err(bytes) => res matches Err(ExportError::NotUtf8(b)) && b@ == bytes,
                Ok(names) => res matches Ok(strings) && texts(strings@) == names,
            },
        }
    }
}

/// The named exports of a library, in the order of its export table.
pub fn read_named_exports(image: &[u8]) -> (res: Result<Vec<String>, ExportError>)
    ensures
        named_exports(image@, export_table(image@), res),
{
    if !check_alignment(image) {
        return Err(ExportError::Misaligned);
    }
    match read_export_table(image, find_lead(image)) {
        Err((stage, words)) => Err(ExportError::Malformed(stage, words)),
        Ok(table) => match collect_names(&table) {
            Err(bytes) => Err(ExportError::NotUtf8(bytes)),
            Ok(names) => Ok(names),
        },
    }
}

/// The line of a module definition that forwards an export to another library.
pub open spec fn forward_line(real_stem: Seq<char>, name: Seq<char>) -> Seq<char> {
    "    "@ + name + " = "@ + real_stem + "."@ + name + "\n"@
}

/// The line of a module definition that lists an export.
pub open spec fn plain_line(name: Seq<char>) -> Seq<char> {
    "    "@ + name + "\n"@
}

/// What every module definition starts with.
pub open spec fn def_head(stem: Seq<char>) -> Seq<char> {
    "LIBRARY "@ + stem + "\n"@ + "EXPORTS\n"@
}

/// The module definition of `proxy_stem` that forwards every export to `real_stem`.
pub open spec fn forwarding_def(
    proxy_stem: Seq<char>,
    real_stem: Seq<char>,
    exports: Seq<Seq<char>>,
) -> Seq<char>
    decreases exports.len(),
{
    if exports.len() == 0 {
        def_head(proxy_stem)
    } else {
        forwarding_def(proxy_stem, real_stem, exports.drop_last()) + forward_line(
            real_stem,
            exports.last(),
        )
    }
}

/// The module definition of `real_stem` with every export.
pub open spec fn plain_def(real_stem: Seq<char>, exports: Seq<Seq<char>>) -> Seq<char>
    decreases exports.len(),
{
    if exports.len() == 0 {
        def_head(real_stem)
    } else {
        plain_def(real_stem, exports.drop_last()) + plain_line(exports.last())
    }
}

fn start_def(stem: &str) -> (out: String)
    ensures
        out@ == def_head(stem@),
{
    let mut out = String::new();
    out.append("LIBRARY ");
    out.append(stem);
    out.append("\n");
    out.append("EXPORTS\n");
    assert(out@ =~= def_head(stem@));
    out
}

/// Writes the module definition that forwards every export.
pub fn write_forwarding_def(proxy_stem: &str, real_stem: &str, exports: &Vec<String>) -> (out:
    String)
    ensures
        out@ == forwarding_def(proxy_stem@, real_stem@, texts(exports@)),
{
    let ghost all = texts(exports@);
    let mut out = start_def(proxy_stem);
    let mut i: usize = 0;
    assert(all.take(0) =~= Seq::empty());
    while i < exports.len()
        invariant
            i <= exports@.len(),
            all == texts(exports@),
            out@ == forwarding_def(proxy_stem@, real_stem@, all.take(i as int)),
        decreases exports.len() - i,
    {
        let ghost before = out@;
        let name = exports[i].as_str();
        out.append("    ");
        out.append(name);
        out.append(" = ");
        out.append(real_stem);
        out.append(".");
        out.append(name);
        out.append("\n");
        assert(out@ =~= before + forward_line(real_stem@, name@));
        assert(all.take(i as int + 1).drop_last() =~= all.take(i as int));
        i += 1;
    }
    assert(all.take(i as int) =~= all);
    out
}

/// Writes the module definition that lists every export.
pub fn write_plain_def(real_stem: &str, exports: &Vec<String>) -> (out: String)
    ensures
        out@ == plain_def(real_stem@, texts(exports@)),
{
    let ghost all = texts(exports@);
    let mut out = start_def(real_stem);
    let mut i: usize = 0;
    assert(all.take(0) =~= Seq::empty());
    while i < exports.len()
        invariant
            i <= exports@.len(),
            all == texts(exports@),
            out@ == plain_def(real_stem@, all.take(i as int)),
        decreases exports.len() - i,
    {
        let ghost before = out@;
        let name = exports[i].as_str();
        out.append("    ");
        out.append(name);
        out.append("\n");
        assert(out@ =~= before + plain_line(name@));
        assert(all.take(i as int + 1).drop_last() =~= all.take(i as int));
        i += 1;
    }
    assert(all.take(i as int) =~= all);
    out
}

/// The two module definitions of a proxy library.
#[derive(Debug)]
pub struct Definitions {
    /// Lists the exports of the real library, to make an import library from.
    pub real: String,
    /// Forwards every export to the real library.
    pub proxy: String,
}

/// Writes the module definitions of a proxy; none for a library without named exports.
pub fn define_proxy(proxy_stem: &str, real_stem: &str, exports: &Vec<String>) -> (defs: Option<
    Definitions,
>)
    ensures
        match defs {
            None => exports@.len() == 0,
            Some(defs) => {
                &&& exports@.len() > 0
                &&& defs.real@ == plain_def(real_stem@, texts(exports@))
                &&& defs.proxy@ == forwarding_def(proxy_stem@, real_stem@, texts(exports@))
            },
        },
{
    if exports.len() == 0 {
        return None;
    }
    Some(
        Definitions {
            real: write_plain_def(real_stem, exports),
            proxy: write_forwarding_def(proxy_stem, real_stem, exports),
        },
    )
}

/// The arguments with which the librarian makes an import library from a module definition.
pub fn import_lib_args(def_path: &str, lib_path: &str, dll_stem: &str) -> (args: Vec<String>)
    ensures
        texts(args@) == seq![
            "/DEF:"@ + def_path@,
            "/OUT:"@ + lib_path@,
            "/MACHINE:X64"@,
            "/NAME:"@ + dll_stem@ + ".dll"@,
        ],
{
    let mut args: Vec<String> = Vec::new();
    args.push("/DEF:".to_owned().concat(def_path));
    args.push("/OUT:".to_owned().concat(lib_path));
    args.push("/MACHINE:X64".to_owned());
    args.push("/NAME:".to_owned().concat(dll_stem).concat(".dll"));
    assert(texts(args@) =~= seq![
        "/DEF:"@ + def_path@,
        "/OUT:"@ + lib_path@,
        "/MACHINE:X64"@,
        "/NAME:"@ + dll_stem@ + ".dll"@,
    ]);
    args
}

/// Every export is forwarded: the module definition of the proxy holds its line.
pub proof fn law_every_export_is_forwarded(
    proxy_stem: Seq<char>,
    real_stem: Seq<char>,
    exports: Seq<Seq<char>>,
    i: int,
)
    requires
        0 <= i < exports.len(),
    ensures
        exists|at: int|
            #[trigger] holds_at(
                forwarding_def(proxy_stem, real_stem, exports),
                forward_line(real_stem, exports[i]),
                at,
            ),
    decreases exports.len(),
{
    let def = forwarding_def(proxy_stem, real_stem, exports);
    let before = forwarding_def(proxy_stem, real_stem, exports.drop_last());
    let line = forward_line(real_stem, exports[i]);
    if i == exports.len() - 1 {
        assert(def.subrange(before.len() as int, before.len() as int + line.len()) =~= line);
        assert(holds_at(def, line, before.len() as int));
    } else {
        law_every_export_is_forwarded(proxy_stem, real_stem, exports.drop_last(), i);
        let at = choose|at: int| #[trigger] holds_at(before, line, at);
        assert(def.subrange(at, at + line.len()) =~= before.subrange(at, at + line.len()));
        assert(holds_at(def, line, at));
    }
}

/// Every name that can be read is kept: where all entries of a table can be read and are UTF-8,
/// there are as many names as entries, and each name is the text of its own entry, however long it
/// is and wherever it stands.
pub proof fn law_every_readable_name_is_kept(table: Seq<Option<Seq<u8>>>)
    requires
        forall|i: int|
            0 <= i < table.len() ==> ((#[trigger] table[i]) matches Some(bytes) && valid_utf8(
                bytes,
            )),
    ensures
        names_of(table) matches Ok(names) && names.len() == table.len() && forall|i: int|
            0 <= i < table.len() ==> #[trigger] names[i] == decode_utf8(table[i]->0),
    decreases table.len(),
{
    if table.len() > 0 {
        let earlier = table.drop_last();
        assert forall|i: int| 0 <= i < earlier.len() implies ((#[trigger] earlier[i]) matches Some(
            bytes,
        ) && valid_utf8(bytes)) by {
            assert(earlier[i] == table[i]);
        }
        law_every_readable_name_is_kept(earlier);
        assert(table[table.len() - 1] is Some);
    }
}

/// A table with one entry gives that one name; an entry that cannot be read gives none, and one
/// that is not UTF-8 is the error.
pub proof fn law_single_entry(bytes: Seq<u8>)
    ensures
        valid_utf8(bytes) ==> names_of(seq![Some(bytes)]) == Ok::<Seq<Seq<char>>, Seq<u8>>(
            seq![decode_utf8(bytes)],
        ),
        !valid_utf8(bytes) ==> names_of(seq![Some(bytes)]) == Err::<Seq<Seq<char>>, Seq<u8>>(bytes),
        names_of(seq![None::<Seq<u8>>]) == Ok::<Seq<Seq<char>>, Seq<u8>>(Seq::empty()),
{
    assert(seq![Some(bytes)].drop_last() =~= Seq::empty());
    assert(seq![None::<Seq<u8>>].drop_last() =~= Seq::empty());
    reveal_with_fuel(names_of, 2);
    if valid_utf8(bytes) {
        assert(names_of(seq![Some(bytes)])->Ok_0 =~= seq![decode_utf8(bytes)]);
    }
}

/// The names are the entries that can be read, decoded one by one: the entries that cannot be read
/// leave no trace.
pub proof fn law_unreadable_names_are_passed_over(table: Seq<Option<Seq<u8>>>)
    requires
        forall|i: int|
            0 <= i < table.len() ==> ((#[trigger] table[i]) matches Some(bytes) ==> valid_utf8(
                bytes,
            )),
    ensures
        names_of(table) == Ok::<Seq<Seq<char>>, Seq<u8>>(
            table.filter(|entry: Option<Seq<u8>>| entry is Some).map_values(
                |entry: Option<Seq<u8>>| decode_utf8(entry->0),
            ),
        ),
    decreases table.len(),
{
    reveal(Seq::filter);
    let readable = |entry: Option<Seq<u8>>| entry is Some;
    let text = |entry: Option<Seq<u8>>| decode_utf8(entry->0);
    if table.len() > 0 {
        let earlier = table.drop_last();
        assert forall|i: int| 0 <= i < earlier.len() implies ((#[trigger] earlier[i]) matches Some(
            bytes,
        ) ==> valid_utf8(bytes)) by {
            assert(earlier[i] == table[i]);
        }
        law_unreadable_names_are_passed_over(earlier);
        assert(table[table.len() - 1] is Some ==> valid_utf8(table.last()->0));
        assert(names_of(table)->Ok_0 =~= table.filter(readable).map_values(text));
    } else {
        assert(names_of(table)->Ok_0 =~= table.filter(readable).map_values(text));
    }
}

/// The first name that is not UTF-8 is the error, whatever stands behind it.
pub proof fn law_first_bad_name_is_the_error(
    first: Seq<Option<Seq<u8>>>,
    bytes: Seq<u8>,
    rest: Seq<Option<Seq<u8>>>,
)
    requires
        forall|i: int|
            0 <= i < first.len() ==> ((#[trigger] first[i]) matches Some(good) ==> valid_utf8(
                good,
            )),
        !valid_utf8(bytes),
    ensures
        names_of(first.push(Some(bytes)) + rest) == Err::<Seq<Seq<char>>, Seq<u8>>(bytes),
{
    law_unreadable_names_are_passed_over(first);
    let table = first.push(Some(bytes)) + rest;
    let i = first.len() as int + 1;
    assert(table.take(i) =~= first.push(Some(bytes)));
    assert(first.push(Some(bytes)).drop_last() =~= first);
    lemma_error_stays(table, i);
}

/// What is collected from a table that can be read: one string for each entry, in order, with the
/// characters that the bytes of that entry encode.
pub proof fn law_one_string_for_each_entry(
    table: &Vec<Option<Vec<u8>>>,
    res: Result<Vec<String>, Vec<u8>>,
)
    requires
        forall|i: int|
            0 <= i < table@.len() ==> ((#[trigger] table@[i]) matches Some(bytes) && valid_utf8(
                bytes@,
            )),
        call_ensures(collect_names, (table,), res),
    ensures
        res matches Ok(names) && names@.len() == table@.len() && forall|i: int|
            0 <= i < table@.len() ==> (#[trigger] names@[i])@ == decode_utf8(table@[i]->0@),
{
    let view = table_view(table@);
    assert forall|i: int| 0 <= i < view.len() implies ((#[trigger] view[i]) matches Some(bytes)
        && valid_utf8(bytes)) by {
        assert(table@[i] is Some);
    }
    law_every_readable_name_is_kept(view);
    if let Ok(names) = res {
        let wanted = names_of(view)->Ok_0;
        assert(texts(names@) == wanted);
        assert(texts(names@).len() == names@.len());
        assert forall|i: int| 0 <= i < table@.len() implies (#[trigger] names@[i])@ == decode_utf8(
            table@[i]->0@,
        ) by {
            assert(texts(names@)[i] == wanted[i]);
            assert(view[i] == Some(table@[i]->0@));
        }
    }
}

/// What is collected from any table: the names of its entries as [`names_of`] has them, each as one
/// string, or the bytes that are no name; `entries` are the bytes of the entries.
pub proof fn law_collected_are_the_names(
    table: &Vec<Option<Vec<u8>>>,
    entries: Seq<Option<Seq<u8>>>,
    res: Result<Vec<String>, Vec<u8>>,
)
    requires
        entries.len() == table@.len(),
        forall|i: int|
            0 <= i < table@.len() ==> (match #[trigger] table@[i] {
                Some(bytes) => entries[i] == Some(bytes@),
                None => entries[i] is None,
            }),
        call_ensures(collect_names, (table,), res),
    ensures
        names_of(entries) matches Ok(names) ==> (res matches Ok(strings) && strings@.len()
            == names.len() && forall|i: int|
            0 <= i < names.len() ==> (#[trigger] strings@[i])@ == names[i]),
        names_of(entries) matches Err(bytes) ==> (res matches Err(found) && found@ == bytes),
{
    assert(table_view(table@) =~= entries) by {
        assert forall|i: int| 0 <= i < entries.len() implies table_view(table@)[i]
            == entries[i] by {
            assert(table@[i] is Some || table@[i] is None);
        }
    }
    if let Ok(names) = names_of(entries) {
        let strings = res->Ok_0;
        assert(texts(strings@) == names);
        assert(texts(strings@).len() == strings@.len());
        assert forall|i: int| 0 <= i < names.len() implies (#[trigger] strings@[i])@ == names[i] by {
            assert(texts(strings@)[i] == names[i]);
        }
    }
}

/// The named exports of a library are the names of its export table, in order: none is dropped and
/// none is added. What cannot be parsed is reported as `pelite` reports it, a name that is not UTF-8
/// by its bytes, and a file that is not aligned as such.
pub proof fn law_exports_are_the_names_of_the_table(
    image: &[u8],
    res: Result<Vec<String>, ExportError>,
)
    requires
        call_ensures(read_named_exports, (image,), res),
    ensures
        !is_aligned(image@) <==> (res matches Err(e) && e is Misaligned),
        is_aligned(image@) ==> (export_table(image@) matches Ok(table) ==> {
            &&& names_of(table) matches Ok(names) ==> (res matches Ok(strings) && strings@.len()
                == names.len() && forall|i: int|
                0 <= i < names.len() ==> (#[trigger] strings@[i])@ == names[i])
            &&& names_of(table) matches Err(bytes) ==> (res matches Err(ExportError::NotUtf8(found))
                && found@ == bytes)
        }),
        is_aligned(image@) ==> (export_table(image@) matches Err((stage, words)) ==> (
        res matches Err(ExportError::Malformed(s, w)) && s == stage && w@ == words)),
{
    if is_aligned(image@) {
        if let Ok(table) = export_table(image@) {
            if let Ok(names) = names_of(table) {
                let strings = res->Ok_0;
                assert(texts(strings@) == names);
                assert(texts(strings@).len() == strings@.len());
                assert forall|i: int| 0 <= i < names.len() implies (#[trigger] strings@[i])@
                    == names[i] by {
                    assert(texts(strings@)[i] == names[i]);
                }
            }
        }
    }
}

/// A number in a file is read with its least byte first.
pub proof fn law_numbers_are_little_endian(image: Seq<u8>, at: int)
    requires
        0 <= at,
        at + 4 <= image.len(),
    ensures
        u16_at(image, at) == image[at] + 0x100 * image[at + 1],
        u32_at(image, at) == image[at] + 0x100 * image[at + 1] + 0x1_0000 * image[at + 2]
            + 0x100_0000 * image[at + 3],
{
}

/// What makes a file an image: it starts as a DOS program, its PE header is where that says, at a
/// multiple of four, within the file and of the 64-bit kind, and the headers, the data directories
/// and the section headers all lie within the file.
pub proof fn law_headers_of_an_image(image: Seq<u8>, header: int, directories: int, sections: int)
    requires
        image.len() >= 64,
        header == u32_at(image, 0x3c),
        header + 136 <= image.len(),
        directories == vstd::math::min(16, u32_at(image, header + 132)),
        sections == u16_at(image, header + 6),
    ensures
        is_image(image) <==> {
            &&& image[0] == 0x4d && image[1] == 0x5a
            &&& header % 4 == 0 && header <= 0x0100_0000
            &&& image[header] == 0x50 && image[header + 1] == 0x45
            &&& image[header + 2] == 0 && image[header + 3] == 0
            &&& image[header + 24] == 0x0b && image[header + 25] == 0x02
            &&& u32_at(image, header + 84) <= image.len()
            &&& u32_at(image, header + 84) <= u32_at(image, header + 80)
            &&& header + 136 + 8 * directories <= image.len()
            &&& sections <= 96
            &&& header + 24 + u16_at(image, header + 20) + 40 * sections <= image.len()
        },
{
}

/// A file that is no 64-bit image, or that has no export directory, is never called misaligned.
pub proof fn law_nothing_to_align(image: Seq<u8>)
    requires
        image.len() < 64 || image[0] != 0x4d || image[1] != 0x5a || u32_at(
            image,
            u32_at(image, 0x3c),
        ) != 0x4550 || u16_at(image, u32_at(image, 0x3c) + 24) != 0x20b || u32_at(
            image,
            u32_at(image, 0x3c) + 136,
        ) == 0,
    ensures
        is_aligned(image),
{
}

proof fn lemma_section_found(image: Seq<u8>, rva: int, from: int)
    requires
        0 <= from,
    ensures
        match section_of(image, rva, from) {
            Some(i) => from <= i < section_count(image) && section_covers(image, i, rva),
            None => true,
        },
    decreases section_count(image) - from,
{
    if from < section_count(image) && !section_covers(image, from, rva) {
        lemma_section_found(image, rva, from + 1);
    }
}

proof fn lemma_first_section(image: Seq<u8>, rva: int, from: int, i: int)
    requires
        0 <= from <= i < section_count(image),
        section_covers(image, i, rva),
        forall|j: int| from <= j < i ==> !section_covers(image, j, rva),
    ensures
        section_of(image, rva, from) == Some(i),
    decreases i - from,
{
    if from < i {
        lemma_first_section(image, rva, from + 1, i);
    }
}

/// A section reaches from its address as far as the larger of its size in memory and its size in
/// the file.
pub proof fn law_extent_of_a_section(image: Seq<u8>, i: int, rva: int)
    requires
        ({
            let at = section_headers(image) + 40 * i;
            let size = vstd::math::max(u32_at(image, at + 8), u32_at(image, at + 16));
            0 <= u32_at(image, at + 12) + size < 0x1_0000_0000
        }),
    ensures
        ({
            let at = section_headers(image) + 40 * i;
            let size = vstd::math::max(u32_at(image, at + 8), u32_at(image, at + 16));
            section_covers(image, i, rva) <==> u32_at(image, at + 12) <= rva < u32_at(image, at + 12)
                + size
        }),
{
    let at = section_headers(image) + 40 * i;
    let size = vstd::math::max(u32_at(image, at + 8), u32_at(image, at + 16));
    vstd::arithmetic::div_mod::lemma_small_mod(
        (u32_at(image, at + 12) + size) as nat,
        0x1_0000_0000,
    );
}

/// Bytes at an address that no section covers are nowhere in the file.
pub proof fn law_address_outside_the_sections(image: Seq<u8>, rva: int, size: int)
    requires
        forall|i: int| 0 <= i < section_count(image) ==> !section_covers(image, i, rva),
    ensures
        place_of(image, rva, size) is None,
{
    lemma_section_found(image, rva, 0);
}

/// Bytes at an address are found where their section has them in the file: as far behind the start
/// of its data as the address is behind the start of the section.
pub proof fn law_address_is_found_in_its_section(image: Seq<u8>, i: int, rva: int, size: int)
    requires
        0 <= i < section_count(image),
        ({
            let at = section_headers(image) + 40 * i;
            let address = u32_at(image, at + 12);
            let in_file = u32_at(image, at + 16);
            let start = u32_at(image, at + 20);
            &&& 0 < size
            &&& address <= rva
            &&& rva - address + size <= in_file
            &&& u32_at(image, at + 8) <= in_file
            &&& address + in_file < 0x1_0000_0000
            &&& start + in_file < 0x1_0000_0000
            &&& start + in_file <= image.len()
        }),
        forall|j: int| 0 <= j < i ==> !section_covers(image, j, rva),
    ensures
        place_of(image, rva, size) == Some(
            u32_at(image, section_headers(image) + 40 * i + 20) + rva - u32_at(
                image,
                section_headers(image) + 40 * i + 12,
            ),
        ),
{
    let at = section_headers(image) + 40 * i;
    let address = u32_at(image, at + 12);
    let in_file = u32_at(image, at + 16);
    let start = u32_at(image, at + 20);
    vstd::arithmetic::div_mod::lemma_small_mod((address + in_file) as nat, 0x1_0000_0000);
    vstd::arithmetic::div_mod::lemma_small_mod((start + in_file) as nat, 0x1_0000_0000);
    assert(section_covers(image, i, rva));
    lemma_first_section(image, rva, 0, i);
}

proof fn lemma_place_keeps_alignment(image: Seq<u8>, rva: int, size: int)
    requires
        forall|i: int|
            0 <= i < section_count(image) ==> #[trigger] section_keeps_alignment(image, i),
    ensures
        place_of(image, rva, size) matches Some(at) ==> at % 4 == rva % 4,
{
    lemma_section_found(image, rva, 0);
    if let Some(i) = section_of(image, rva, 0) {
        assert(section_keeps_alignment(image, i));
        let at = section_headers(image) + 40 * i;
        let start = u32_at(image, at + 20);
        let address = u32_at(image, at + 12);
        assert((start + (rva - address)) % 4 == rva % 4) by (nonlinear_arith)
            requires
                start % 4 == address % 4,
        ;
    }
}

proof fn lemma_table_keeps_alignment(image: Seq<u8>, rva: int, size: int, align: int)
    requires
        forall|i: int|
            0 <= i < section_count(image) ==> #[trigger] section_keeps_alignment(image, i),
        align == 2 || align == 4,
    ensures
        table_is_aligned(image, rva, size, align),
{
    lemma_place_keeps_alignment(image, rva, size);
}

proof fn lemma_tables_keep_alignment(image: Seq<u8>, directory: int)
    requires
        forall|i: int|
            0 <= i < section_count(image) ==> #[trigger] section_keeps_alignment(image, i),
    ensures
        tables_are_aligned(image, directory),
{
    let functions = u32_at(image, directory + 28);
    let names = u32_at(image, directory + 32);
    let ordinals = u32_at(image, directory + 36);
    let function_count = u32_at(image, directory + 20);
    let name_count = u32_at(image, directory + 24);
    lemma_table_keeps_alignment(image, functions, 4 * function_count, 4);
    lemma_table_keeps_alignment(image, names, 4 * name_count, 4);
    lemma_table_keeps_alignment(image, ordinals, 2 * name_count, 2);
    assert(tables_are_aligned(image, directory));
}

/// Whether a section lies in the file as in memory to a multiple of four.
pub open spec fn section_keeps_alignment(image: Seq<u8>, i: int) -> bool {
    u32_at(image, section_headers(image) + 40 * i + 20) % 4 == u32_at(
        image,
        section_headers(image) + 40 * i + 12,
    ) % 4
}

/// A file whose section headers lie at a multiple of four, and whose sections lie in the file as
/// in memory to a multiple of four, is aligned: its exports are read.
pub proof fn law_aligned_sections_are_enough(image: Seq<u8>)
    requires
        section_headers(image) % 4 == 0,
        forall|i: int|
            0 <= i < section_count(image) ==> #[trigger] section_keeps_alignment(image, i),
    ensures
        is_aligned(image),
{
    if let Some(rva) = export_address(image) {
        lemma_place_keeps_alignment(image, rva, 40);
        if let Some(directory) = place_of(image, rva, 40) {
            lemma_tables_keep_alignment(image, directory);
        }
    }
}

/// In an aligned file the directory lies at a multiple of four, and so do its functions and its
/// names where they can be had; its ordinals lie at a multiple of two.
pub proof fn law_aligned_tables(image: Seq<u8>, rva: int, directory: int)
    requires
        is_aligned(image),
        is_image(image),
        directory_count(image) > 0,
        rva == u32_at(image, pe_header(image) + 136),
        rva != 0,
        rva % 4 == 0,
        place_of(image, rva, 40) == Some(directory),
    ensures
        section_headers(image) % 4 == 0,
        directory % 4 == 0,
        ({
            let functions = u32_at(image, directory + 28);
            let names = u32_at(image, directory + 32);
            let ordinals = u32_at(image, directory + 36);
            let functions_at = place_of(image, functions, 4 * u32_at(image, directory + 20));
            let names_at = place_of(image, names, 4 * u32_at(image, directory + 24));
            let ordinals_at = place_of(image, ordinals, 2 * u32_at(image, directory + 24));
            functions != 0 && functions % 4 == 0 && functions_at is Some ==> {
                &&& functions_at->0 % 4 == 0
                &&& names != 0 && names % 4 == 0 && names_at is Some ==> {
                    &&& names_at->0 % 4 == 0
                    &&& ordinals != 0 && ordinals % 2 == 0 && ordinals_at is Some ==> ordinals_at->0
                        % 2 == 0
                }
            }
        }),
{
}

/// The copy of an image starts where its PE header comes to lie at a multiple of eight.
pub proof fn law_lead_aligns_the_header(image: Seq<u8>)
    requires
        is_image(image),
    ensures
        (header_lead(image) + pe_header(image)) % 8 == 0,
        0 <= header_lead(image) < 8,
{
}

proof fn lemma_forwarding_lines(
    proxy_stem: Seq<char>,
    real_stem: Seq<char>,
    exports: Seq<Seq<char>>,
)
    ensures
        forwarding_def(proxy_stem, real_stem, exports) == "LIBRARY "@ + proxy_stem + "\n"@
            + "EXPORTS\n"@ + exports.map_values(
            |name: Seq<char>| "    "@ + name + " = "@ + real_stem + "."@ + name + "\n"@,
        ).flatten(),
    decreases exports.len(),
{
    let line = |name: Seq<char>| "    "@ + name + " = "@ + real_stem + "."@ + name + "\n"@;
    let def = forwarding_def(proxy_stem, real_stem, exports);
    let head = "LIBRARY "@ + proxy_stem + "\n"@ + "EXPORTS\n"@;
    if exports.len() > 0 {
        lemma_forwarding_lines(proxy_stem, real_stem, exports.drop_last());
        let earlier = exports.drop_last().map_values(line);
        assert(exports.map_values(line) =~= earlier.push(line(exports.last())));
        earlier.lemma_flatten_push(line(exports.last()));
        assert(def =~= head + exports.map_values(line).flatten());
    } else {
        assert(def =~= head + exports.map_values(line).flatten());
    }
}

proof fn lemma_plain_lines(real_stem: Seq<char>, exports: Seq<Seq<char>>)
    ensures
        plain_def(real_stem, exports) == "LIBRARY "@ + real_stem + "\n"@ + "EXPORTS\n"@
            + exports.map_values(|name: Seq<char>| "    "@ + name + "\n"@).flatten(),
    decreases exports.len(),
{
    let line = |name: Seq<char>| "    "@ + name + "\n"@;
    let def = plain_def(real_stem, exports);
    let head = "LIBRARY "@ + real_stem + "\n"@ + "EXPORTS\n"@;
    if exports.len() > 0 {
        lemma_plain_lines(real_stem, exports.drop_last());
        let earlier = exports.drop_last().map_values(line);
        assert(exports.map_values(line) =~= earlier.push(line(exports.last())));
        earlier.lemma_flatten_push(line(exports.last()));
        assert(def =~= head + exports.map_values(line).flatten());
    } else {
        assert(def =~= head + exports.map_values(line).flatten());
    }
}

/// The definitions of a proxy: two lines of head and then one line for each export, in order. The
/// line lists the export in the definition of the real library, and in the one of the proxy it
/// forwards the export to the export of the same name of the real library. A library without named
/// exports has no definitions.
pub proof fn law_one_line_for_each_export(
    proxy_stem: &str,
    real_stem: &str,
    exports: &Vec<String>,
    defs: Option<Definitions>,
    forwarding: String,
    plain: String,
)
    requires
        call_ensures(define_proxy, (proxy_stem, real_stem, exports), defs),
        call_ensures(write_forwarding_def, (proxy_stem, real_stem, exports), forwarding),
        call_ensures(write_plain_def, (real_stem, exports), plain),
    ensures
        defs matches Some(defs) ==> defs.proxy@ == forwarding@ && defs.real@ == plain@,
        defs is None <==> exports@.len() == 0,
        defs matches Some(defs) ==> {
            &&& defs.proxy@ == "LIBRARY "@ + proxy_stem@ + "\n"@ + "EXPORTS\n"@
                + exports@.map_values(
                |name: String|
                    "    "@ + name@ + " = "@ + real_stem@ + "."@ + name@ + "\n"@,
            ).flatten()
            &&& defs.real@ == "LIBRARY "@ + real_stem@ + "\n"@ + "EXPORTS\n"@ + exports@.map_values(
                |name: String| "    "@ + name@ + "\n"@,
            ).flatten()
        },
{
    if let Some(defs) = defs {
        let names = texts(exports@);
        lemma_forwarding_lines(proxy_stem@, real_stem@, names);
        lemma_plain_lines(real_stem@, names);
        assert(names.map_values(
            |name: Seq<char>| "    "@ + name + " = "@ + real_stem@ + "."@ + name + "\n"@,
        ) =~= exports@.map_values(
            |name: String| "    "@ + name@ + " = "@ + real_stem@ + "."@ + name@ + "\n"@,
        ));
        assert(names.map_values(|name: Seq<char>| "    "@ + name + "\n"@) =~= exports@.map_values(
            |name: String| "    "@ + name@ + "\n"@,
        ));
    }
}

/// The librarian is told, in this order, the definition to read, the library to write, the machine
/// and the name of the library that it is for.
pub proof fn law_import_library_arguments(
    def_path: &str,
    lib_path: &str,
    dll_stem: &str,
    args: Vec<String>,
)
    requires
        call_ensures(import_lib_args, (def_path, lib_path, dll_stem), args),
    ensures
        args@.len() == 4,
        args@[0]@ == "/DEF:"@ + def_path@,
        args@[1]@ == "/OUT:"@ + lib_path@,
        args@[2]@ == "/MACHINE:X64"@,
        args@[3]@ == "/NAME:"@ + dll_stem@ + ".dll"@,
{
    let wanted = seq![
        "/DEF:"@ + def_path@,
        "/OUT:"@ + lib_path@,
        "/MACHINE:X64"@,
        "/NAME:"@ + dll_stem@ + ".dll"@,
    ];
    assert(texts(args@).len() == wanted.len());
    assert(texts(args@)[0] == wanted[0]);
    assert(texts(args@)[1] == wanted[1]);
    assert(texts(args@)[2] == wanted[2]);
    assert(texts(args@)[3] == wanted[3]);
}

} // verus!
