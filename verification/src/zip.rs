//! Folder downloads: a ZIP archive whose entries are stored uncompressed,
//! each with its CRC-32, followed by the central directory.

use vstd::prelude::*;
use vstd::utf8::encode_utf8;
use crate::web::text_bytes;
use vstd::string::*;

verus! {

/// The reflected CRC-32 polynomial (IEEE 802.3), as the ZIP format uses it.
pub const CRC32_POLY: u32 = 0xEDB8_8320;

/// One step of the bitwise CRC-32 register.
pub open spec fn crc_bit(c: u32) -> u32 {
    if c & 1u32 == 1u32 {
        (c >> 1u32) ^ CRC32_POLY
    } else {
        c >> 1u32
    }
}

pub open spec fn crc_bits(c: u32, n: nat) -> u32
    decreases n,
{
    if n == 0 {
        c
    } else {
        crc_bits(crc_bit(c), (n - 1) as nat)
    }
}

/// The register after one more byte.
pub open spec fn crc_byte(c: u32, b: u8) -> u32 {
    crc_bits(c ^ (b as u32), 8)
}

/// The register after `data`, starting from all ones.
pub open spec fn crc_register(data: Seq<u8>) -> u32
    decreases data.len(),
{
    if data.len() == 0 {
        0xFFFF_FFFFu32
    } else {
        crc_byte(crc_register(data.drop_last()), data.last())
    }
}

/// CRC-32 of `data`: the register, inverted.
pub open spec fn crc32(data: Seq<u8>) -> u32 {
    crc_register(data) ^ 0xFFFF_FFFFu32
}

fn crc_update(c: u32, b: u8) -> (r: u32)
    ensures
        r == crc_byte(c, b),
{
    let mut r: u32 = c ^ (b as u32);
    let mut k: u32 = 0;
    while k < 8
        invariant
            k <= 8,
            crc_bits(r, (8 - k) as nat) == crc_byte(c, b),
        decreases 8 - k,
    {
        r = if r & 1 == 1 {
            (r >> 1) ^ CRC32_POLY
        } else {
            r >> 1
        };
        k = k + 1;
    }
    r
}

/// CRC-32 (IEEE) of a byte string.
pub fn crc32_of(data: &Vec<u8>) -> (r: u32)
    ensures
        r == crc32(data@),
{
    let mut c: u32 = 0xFFFF_FFFF;
    let mut i: usize = 0;
    while i < data.len()
        invariant
            i <= data.len(),
            c == crc_register(data@.take(i as int)),
        decreases data.len() - i,
    {
        proof {
            assert(data@.take(i + 1).drop_last() =~= data@.take(i as int));
        }
        c = crc_update(c, data[i]);
        i = i + 1;
    }
    proof {
        assert(data@.take(i as int) =~= data@);
    }
    c ^ 0xFFFF_FFFF
}

/// Two bytes, least significant first.
pub open spec fn le16(v: int) -> Seq<u8> {
    seq![(v % 256) as u8, ((v / 256) % 256) as u8]
}

/// Four bytes, least significant first.
pub open spec fn le32(v: int) -> Seq<u8> {
    seq![(v % 256) as u8, ((v / 256) % 256) as u8, ((v / 65536) % 256) as u8, ((v / 16777216) % 256) as u8]
}

fn push_le16(out: &mut Vec<u8>, v: u16)
    ensures
        final(out)@ == old(out)@ + le16(v as int),
{
    out.push((v % 256) as u8);
    out.push(((v / 256) % 256) as u8);
    proof {
        assert(final(out)@ =~= old(out)@ + le16(v as int));
    }
}

fn push_le32(out: &mut Vec<u8>, v: u32)
    ensures
        final(out)@ == old(out)@ + le32(v as int),
{
    out.push((v % 256) as u8);
    out.push(((v / 256) % 256) as u8);
    out.push(((v / 65536) % 256) as u8);
    out.push(((v / 16777216) % 256) as u8);
    proof {
        assert(final(out)@ =~= old(out)@ + le32(v as int));
    }
}

/// Copies `src` onto the end of `out`.
fn push_all(out: &mut Vec<u8>, src: &Vec<u8>)
    ensures
        final(out)@ == old(out)@ + src@,
{
    let ghost start = out@;
    let mut k: usize = 0;
    while k < src.len()
        invariant
            k <= src.len(),
            out@ == start + src@.take(k as int),
        decreases src.len() - k,
    {
        out.push(src[k]);
        k = k + 1;
        proof {
            assert(out@ =~= start + src@.take(k as int));
        }
    }
    proof {
        assert(src@.take(k as int) =~= src@);
    }
}

/// ZIP format version 2.0: enough for stored entries.
pub const ZIP_VERSION: u16 = 20;

/// General-purpose flag bit 11: the entry name is UTF-8.
pub const ZIP_UTF8_FLAG: u16 = 0x0800;

/// DOS date of 1980-01-01, the earliest the format can hold.
pub const ZIP_DOS_DATE: u16 = 0x0021;

/// The fixed part of a local file header; the name and the data follow it.
pub open spec fn local_header(name_len: int, crc: u32, size: int) -> Seq<u8> {
    le32(0x0403_4b50) + le16(ZIP_VERSION as int) + le16(ZIP_UTF8_FLAG as int) + le16(0)
        + le16(0) + le16(ZIP_DOS_DATE as int) + le32(crc as int) + le32(size) + le32(size)
        + le16(name_len) + le16(0)
}

/// The fixed part of a central directory header; the name follows it.
pub open spec fn central_header(name_len: int, crc: u32, size: int, offset: int) -> Seq<u8> {
    le32(0x0201_4b50) + le16(ZIP_VERSION as int) + le16(ZIP_VERSION as int) + le16(
        ZIP_UTF8_FLAG as int,
    ) + le16(0) + le16(0) + le16(ZIP_DOS_DATE as int) + le32(crc as int) + le32(size) + le32(
        size,
    ) + le16(name_len) + le16(0) + le16(0) + le16(0) + le16(0) + le32(0) + le32(offset)
}

/// The end-of-central-directory record.
pub open spec fn end_record(count: int, cd_size: int, cd_offset: int) -> Seq<u8> {
    le32(0x0605_4b50) + le16(0) + le16(0) + le16(count) + le16(count) + le32(cd_size) + le32(
        cd_offset,
    ) + le16(0)
}

/// A file to put in the archive: its path inside the archive, with `/`
/// between folders, and its contents.
pub struct ZipEntry {
    pub name: String,
    pub data: Vec<u8>,
}

pub open spec fn name_bytes(e: ZipEntry) -> Seq<u8> {
    encode_utf8(e.name@)
}

/// A local file header with the entry's name and data after it.
pub open spec fn local_record(e: ZipEntry) -> Seq<u8> {
    local_header(name_bytes(e).len() as int, crc32(e.data@), e.data@.len() as int)
        + name_bytes(e) + e.data@
}

/// A central directory header for an entry whose local record starts at `offset`.
pub open spec fn central_record(e: ZipEntry, offset: int) -> Seq<u8> {
    central_header(name_bytes(e).len() as int, crc32(e.data@), e.data@.len() as int, offset)
        + name_bytes(e)
}

/// The local records of all entries, in order.
pub open spec fn locals(es: Seq<ZipEntry>) -> Seq<u8>
    decreases es.len(),
{
    if es.len() == 0 {
        Seq::empty()
    } else {
        locals(es.drop_last()) + local_record(es.last())
    }
}

/// The central directory: one header per entry, in order, each pointing at
/// its entry's local record.
pub open spec fn centrals(es: Seq<ZipEntry>) -> Seq<u8>
    decreases es.len(),
{
    if es.len() == 0 {
        Seq::empty()
    } else {
        centrals(es.drop_last()) + central_record(es.last(), locals(es.drop_last()).len() as int)
    }
}

/// The whole archive.
pub open spec fn archive(es: Seq<ZipEntry>) -> Seq<u8> {
    locals(es) + centrals(es) + end_record(
        es.len() as int,
        centrals(es).len() as int,
        locals(es).len() as int,
    )
}

/// What the format's 16- and 32-bit fields can hold: at most 65535 entries,
/// names of at most 65535 bytes, and local records and central directory of
/// at most 4 GiB less one byte each.
pub open spec fn zip_fits(es: Seq<ZipEntry>) -> bool {
    &&& es.len() <= 0xFFFF
    &&& forall|i: int| 0 <= i < es.len() ==> #[trigger] name_bytes(es[i]).len() <= 0xFFFF
    &&& locals(es).len() <= 0xFFFF_FFFF
    &&& centrals(es).len() <= 0xFFFF_FFFF
}

proof fn lemma_prefix_lengths(es: Seq<ZipEntry>, j: int)
    requires
        0 <= j <= es.len(),
    ensures
        locals(es.take(j)).len() <= locals(es).len(),
        centrals(es.take(j)).len() <= centrals(es).len(),
    decreases es.len(),
{
    if j == es.len() {
        assert(es.take(j) =~= es);
    } else {
        assert(es.drop_last().take(j) =~= es.take(j));
        lemma_prefix_lengths(es.drop_last(), j);
    }
}

fn local_header_bytes(name_len: u16, crc: u32, size: u32) -> (h: Vec<u8>)
    ensures
        h@ == local_header(name_len as int, crc, size as int),
{
    let mut h: Vec<u8> = Vec::new();
    push_le32(&mut h, 0x0403_4b50);
    push_le16(&mut h, ZIP_VERSION);
    push_le16(&mut h, ZIP_UTF8_FLAG);
    push_le16(&mut h, 0);
    push_le16(&mut h, 0);
    push_le16(&mut h, ZIP_DOS_DATE);
    push_le32(&mut h, crc);
    push_le32(&mut h, size);
    push_le32(&mut h, size);
    push_le16(&mut h, name_len);
    push_le16(&mut h, 0);
    proof {
        assert(h@ =~= local_header(name_len as int, crc, size as int));
    }
    h
}

fn central_header_bytes(name_len: u16, crc: u32, size: u32, offset: u32) -> (h: Vec<u8>)
    ensures
        h@ == central_header(name_len as int, crc, size as int, offset as int),
{
    let mut h: Vec<u8> = Vec::new();
    push_le32(&mut h, 0x0201_4b50);
    push_le16(&mut h, ZIP_VERSION);
    push_le16(&mut h, ZIP_VERSION);
    push_le16(&mut h, ZIP_UTF8_FLAG);
    push_le16(&mut h, 0);
    push_le16(&mut h, 0);
    push_le16(&mut h, ZIP_DOS_DATE);
    push_le32(&mut h, crc);
    push_le32(&mut h, size);
    push_le32(&mut h, size);
    push_le16(&mut h, name_len);
    push_le16(&mut h, 0);
    push_le16(&mut h, 0);
    push_le16(&mut h, 0);
    push_le16(&mut h, 0);
    push_le32(&mut h, 0);
    push_le32(&mut h, offset);
    proof {
        assert(h@ =~= central_header(name_len as int, crc, size as int, offset as int));
    }
    h
}

fn end_record_bytes(count: u16, cd_size: u32, cd_offset: u32) -> (h: Vec<u8>)
    ensures
        h@ == end_record(count as int, cd_size as int, cd_offset as int),
{
    let mut h: Vec<u8> = Vec::new();
    push_le32(&mut h, 0x0605_4b50);
    push_le16(&mut h, 0);
    push_le16(&mut h, 0);
    push_le16(&mut h, count);
    push_le16(&mut h, count);
    push_le32(&mut h, cd_size);
    push_le32(&mut h, cd_offset);
    push_le16(&mut h, 0);
    proof {
        assert(h@ =~= end_record(count as int, cd_size as int, cd_offset as int));
    }
    h
}

proof fn lemma_locals_prefix(es: Seq<ZipEntry>, j: int)
    requires
        0 <= j <= es.len(),
    ensures
        locals(es.take(j)).len() <= locals(es).len(),
        locals(es).subrange(0, locals(es.take(j)).len() as int) == locals(es.take(j)),
    decreases es.len(),
{
    if j == es.len() {
        assert(es.take(j) =~= es);
        assert(locals(es).subrange(0, locals(es).len() as int) =~= locals(es));
    } else {
        assert(es.drop_last().take(j) =~= es.take(j));
        lemma_locals_prefix(es.drop_last(), j);
        let p = locals(es.take(j));
        assert(locals(es).subrange(0, p.len() as int) =~= locals(es.drop_last()).subrange(
            0,
            p.len() as int,
        ));
    }
}

/// The offset that entry `i`'s central directory header records is where
/// that entry's local record stands in the archive.
pub proof fn law_central_offsets_point_at_local_records(es: Seq<ZipEntry>, i: int)
    requires
        0 <= i < es.len(),
    ensures
        ({
            let off = locals(es.take(i)).len() as int;
            archive(es).subrange(off, off + local_record(es[i]).len()) == local_record(es[i])
        }),
{
    let off = locals(es.take(i)).len() as int;
    let n = es.take(i + 1);
    assert(n.drop_last() =~= es.take(i));
    assert(n.last() == es[i]);
    lemma_locals_prefix(es, i + 1);
    let ln = locals(n);
    assert(ln == locals(es.take(i)) + local_record(es[i]));
    assert(archive(es).subrange(off, off + local_record(es[i]).len()) =~= ln.subrange(
        off,
        ln.len() as int,
    ));
    assert(ln.subrange(off, ln.len() as int) =~= local_record(es[i]));
}

/// Appends `e`'s local record to `out` and its central directory header,
/// pointing at where that record starts, to `cd`; `false`, with nothing
/// appended, when the name or either part would outgrow the format's fields.
fn add_entry(out: &mut Vec<u8>, cd: &mut Vec<u8>, e: &ZipEntry) -> (ok: bool)
    requires
        old(out)@.len() <= 0xFFFF_FFFF,
        old(cd)@.len() <= 0xFFFF_FFFF,
    ensures
        ok <==> {
            &&& name_bytes(*e).len() <= 0xFFFF
            &&& old(out)@.len() + local_record(*e).len() <= 0xFFFF_FFFF
            &&& old(cd)@.len() + central_record(*e, old(out)@.len() as int).len() <= 0xFFFF_FFFF
        },
        ok ==> final(out)@ == old(out)@ + local_record(*e),
        ok ==> final(cd)@ == old(cd)@ + central_record(*e, old(out)@.len() as int),
{
    proof {
        assert(local_record(*e).len() == 30 + name_bytes(*e).len() + e.data@.len());
        assert(central_record(*e, out@.len() as int).len() == 46 + name_bytes(*e).len());
    }
    let name = text_bytes(e.name.as_str());
    if name.len() > 0xFFFF {
        return false;
    }
    let dlen: usize = e.data.len();
    let olen: usize = out.len();
    let clen: usize = cd.len();
    if name.len() + 30 > 0xFFFF_FFFF - olen || dlen > 0xFFFF_FFFF - olen - name.len() - 30 {
        return false;
    }
    if name.len() + 46 > 0xFFFF_FFFF - clen {
        return false;
    }
    let ghost out0 = out@;
    let ghost cd0 = cd@;
    let crc = crc32_of(&e.data);
    let mut lh = local_header_bytes(name.len() as u16, crc, dlen as u32);
    out.append(&mut lh);
    push_all(out, &name);
    push_all(out, &e.data);
    let mut ch = central_header_bytes(name.len() as u16, crc, dlen as u32, olen as u32);
    cd.append(&mut ch);
    push_all(cd, &name);
    proof {
        assert(out@ =~= out0 + local_record(*e));
        assert(cd@ =~= cd0 + central_record(*e, out0.len() as int));
    }
    true
}

/// The ZIP archive of `entries`, in their order, each stored uncompressed
/// with its CRC-32; `None` exactly when the entries do not fit the format's
/// fields (see `zip_fits`).
pub fn zip_stored(entries: &Vec<ZipEntry>) -> (r: Option<Vec<u8>>)
    ensures
        r is Some <==> zip_fits(entries@),
        r matches Some(b) ==> b@ == archive(entries@),
{
    if entries.len() > 0xFFFF {
        return None;
    }
    let mut out: Vec<u8> = Vec::new();
    let mut cd: Vec<u8> = Vec::new();
    let mut i: usize = 0;
    proof {
        assert(entries@.take(0) =~= Seq::<ZipEntry>::empty());
    }
    while i < entries.len()
        invariant
            i <= entries.len() <= 0xFFFF,
            out@ == locals(entries@.take(i as int)),
            cd@ == centrals(entries@.take(i as int)),
            out@.len() <= 0xFFFF_FFFF,
            cd@.len() <= 0xFFFF_FFFF,
            forall|j: int| 0 <= j < i ==> #[trigger] name_bytes(entries@[j]).len() <= 0xFFFF,
        decreases entries.len() - i,
    {
        let ghost next = entries@.take(i + 1);
        proof {
            assert(next.drop_last() =~= entries@.take(i as int));
            assert(next.last() == entries@[i as int]);
            lemma_prefix_lengths(entries@, i + 1);
        }
        if !add_entry(&mut out, &mut cd, &entries[i]) {
            return None;
        }
        i = i + 1;
    }
    proof {
        assert(entries@.take(i as int) =~= entries@);
    }
    let cd_size: u32 = cd.len() as u32;
    let cd_offset: u32 = out.len() as u32;
    out.append(&mut cd);
    let mut end = end_record_bytes(entries.len() as u16, cd_size, cd_offset);
    out.append(&mut end);
    Some(out)
}

/// The archive path of `name` inside folder `dir` (itself an archive path,
/// empty for the top level): the two joined by `/`.
pub fn entry_name(dir: &str, name: &str) -> (r: String)
    ensures
        r@ == (if dir@.len() == 0 {
            name@
        } else {
            dir@ + "/"@ + name@
        }),
{
    if dir.unicode_len() == 0 {
        String::from_str(name)
    } else {
        let mut r = String::from_str(dir);
        r.append("/");
        r.append(name);
        r
    }
}

} // verus!
