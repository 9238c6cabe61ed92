//! Walking the ramdisk's newc cpio archive and locating the bundled payload.
//!
//! The walk is a small state machine: an `ArchiveWalker` stands before an
//! entry; `next_entry` reads that entry's header and yields an
//! `ArchiveEntry`, whose body must be either read (`read_body`) or skipped
//! (`skip`, which gives the walker for the next entry) before going on. The
//! trailer entry ends the archive.

use vstd::prelude::*;
use vstd::slice::slice_subrange;
use crate::error::ExtractError;

verus! {

#[verifier::external_type_specification]
#[verifier::external_body]
pub struct ExIoError(std::io::Error);

#[verifier::external_type_specification]
#[verifier::external_body]
pub struct ExLzmaError(lzma_rs::error::Error);

/// What the newc header at the start of `b` declares: the entry name, the
/// body size, and the number of header bytes (magic, fields, name and
/// padding) before the body; `None` where no valid header starts there.
pub uninterp spec fn newc_header_of(b: Seq<u8>) -> Option<(Seq<char>, u32, usize)>;

/// What the xz decoder produces from `b`, or `None` where it rejects it.
pub uninterp spec fn xz_decompressed_of(b: Seq<u8>) -> Option<Seq<u8>>;

/// What the gzip decoder produces from `b`, or `None` where it rejects it.
pub uninterp spec fn gunzip_of(b: Seq<u8>) -> Option<Seq<u8>>;

/// The name of the entry that ends a newc archive.
pub open spec fn trailer_name() -> Seq<char> {
    "TRAILER!!!"@
}

/// The archive paths under which the payload is bundled.
pub open spec fn is_payload_name(n: Seq<char>) -> bool {
    n == "overlay.d/sbin/magisk.xz"@ || n == "overlay.d/sbin/magisk32.xz"@
}

/// A decoded newc entry header.
struct NewcHeader {
    name: String,
    is_trailer: bool,
    file_size: u32,
    header_len: usize,
}

/// Relies on cpio::NewcReader::new (and Entry::name, Entry::file_size,
/// Entry::is_trailer) reading the header at `data[at..]` from a cursor: the
/// cursor's position afterwards is the header length, at least the 110 bytes
/// of magic and fields plus the NUL of the name, and within the bytes given.
#[verifier::external_body]
fn read_newc_header(data: &[u8], at: usize) -> (r: Result<NewcHeader, std::io::Error>)
    requires
        at <= data@.len(),
    ensures
        r is Err ==> newc_header_of(data@.subrange(at as int, data@.len() as int)) is None,
        r matches Ok(h) ==> {
            &&& newc_header_of(data@.subrange(at as int, data@.len() as int)) == Some(
                (h.name@, h.file_size, h.header_len),
            )
            &&& h.is_trailer == (h.name@ == trailer_name())
            &&& 111 <= h.header_len <= data@.len() - at
        },
{
    let mut cursor = std::io::Cursor::new(&data[at..]);
    let reader = cpio::NewcReader::new(&mut cursor)?;
    let (name, is_trailer) = (reader.entry().name().to_string(), reader.entry().is_trailer());
    let file_size = reader.entry().file_size();
    Ok(NewcHeader { name, is_trailer, file_size, header_len: cursor.position() as usize })
}

/// Relies on lzma_rs::xz_decompress: decodes the xz stream in `input`.
#[verifier::external_body]
fn xz_decompress(input: &[u8]) -> (r: Result<Vec<u8>, lzma_rs::error::Error>)
    ensures
        r matches Ok(v) ==> xz_decompressed_of(input@) == Some(v@),
        r is Err ==> xz_decompressed_of(input@) is None,
{
    let mut src = input;
    let mut out = Vec::new();
    lzma_rs::xz_decompress(&mut src, &mut out)?;
    Ok(out)
}

/// Relies on flate2::read::GzDecoder read to its end: decodes the gzip
/// stream in `input`.
#[verifier::external_body]
fn gunzip(input: &[u8]) -> (r: Result<Vec<u8>, std::io::Error>)
    ensures
        r matches Ok(v) ==> gunzip_of(input@) == Some(v@),
        r is Err ==> gunzip_of(input@) is None,
{
    let mut out = Vec::new();
    std::io::Read::read_to_end(&mut flate2::read::GzDecoder::new(input), &mut out)?;
    Ok(out)
}

/// Zero bytes that pad a body of `n` bytes to a multiple of four.
pub open spec fn pad4(n: int) -> int {
    (4 - n % 4) % 4
}

/// The header declared at `pos` of the archive `d`, if one can be read there.
pub open spec fn entry_at(d: Seq<u8>, pos: int) -> Option<(Seq<char>, u32, usize)> {
    if 0 <= pos <= d.len() {
        newc_header_of(d.subrange(pos, d.len() as int))
    } else {
        None
    }
}

/// The outcome of looking for the payload from the entry at `pos` on:
/// `Ok(Some((start, len)))` for the body of the first entry with a payload
/// name, `Ok(None)` where the trailer comes first, and `CorruptArchive`
/// where a header cannot be read, or a body or its padding runs past the
/// end. A header of no bytes, which no reader produces, counts as corrupt,
/// so that the walk always advances.
pub open spec fn walk_from(d: Seq<u8>, pos: int) -> Result<Option<(int, int)>, ExtractError>
    decreases d.len() - pos,
{
    match entry_at(d, pos) {
        None => Err(ExtractError::CorruptArchive),
        Some((name, size, hlen)) => {
            let start = pos + hlen;
            let next = start + size + pad4(size as int);
            if name == trailer_name() {
                Ok(None)
            } else if start + size > d.len() {
                Err(ExtractError::CorruptArchive)
            } else if is_payload_name(name) {
                Ok(Some((start, size as int)))
            } else if next > d.len() || hlen == 0 {
                Err(ExtractError::CorruptArchive)
            } else {
                walk_from(d, next)
            }
        },
    }
}

/// A walker standing before an entry of the archive.
pub struct ArchiveWalker<'a> {
    data: &'a [u8],
    pos: usize,
}

/// An entry whose header has been read; its body must be read or skipped
/// before the walk goes on.
pub struct ArchiveEntry<'a> {
    data: &'a [u8],
    name: String,
    is_trailer: bool,
    body_start: usize,
    body_len: usize,
}

impl<'a> ArchiveWalker<'a> {
    /// The whole archive.
    pub closed spec fn archive(&self) -> Seq<u8> {
        self.data@
    }

    /// Where the next header starts.
    pub closed spec fn position(&self) -> int {
        self.pos as int
    }

    /// A walker before the first entry of `data`.
    pub fn new(data: &'a [u8]) -> (r: ArchiveWalker<'a>)
        ensures
            r.archive() == data@,
            r.position() == 0,
    {
        ArchiveWalker { data, pos: 0 }
    }

    /// Reads the header of the entry the walker stands before. A header that
    /// cannot be read, or a body (but for the trailer's) that runs past the
    /// end of the archive, is `CorruptArchive`.
    pub fn next_entry(self) -> (r: Result<ArchiveEntry<'a>, ExtractError>)
        ensures
            entry_at(self.archive(), self.position()) is None ==> r == Err::<
                ArchiveEntry<'a>,
                ExtractError,
            >(ExtractError::CorruptArchive),
            entry_at(self.archive(), self.position()) matches Some((name, size, hlen)) ==> hlen > 0,
            entry_at(self.archive(), self.position()) matches Some((name, size, hlen)) ==> {
                if name == trailer_name() {
                    r matches Ok(e) && e.wf() && e.archive() == self.archive() && e.spec_name()
                        == name && e.spec_is_trailer()
                } else if self.position() + hlen + size > self.archive().len() {
                    r == Err::<ArchiveEntry<'a>, ExtractError>(ExtractError::CorruptArchive)
                } else {
                    r matches Ok(e) && e.wf() && e.archive() == self.archive() && e.spec_name()
                        == name && !e.spec_is_trailer() && e.body_range() == (
                        self.position() + hlen,
                        size as int,
                    )
                }
            },
    {
        if self.pos > self.data.len() {
            return Err(ExtractError::CorruptArchive);
        }
        match read_newc_header(self.data, self.pos) {
            Err(_) => Err(ExtractError::CorruptArchive),
            Ok(h) => self.entry_from_header(h.name, h.is_trailer, h.file_size, h.header_len),
        }
    }

    /// The entry whose header, read where the walker stands, declares the
    /// path `name`, a body of `file_size` bytes, and takes `header_len`
    /// bytes. A body (but for the trailer's) that runs past the end of the
    /// archive is `CorruptArchive`.
    pub fn entry_from_header(
        self,
        name: String,
        is_trailer: bool,
        file_size: u32,
        header_len: usize,
    ) -> (r: Result<ArchiveEntry<'a>, ExtractError>)
        requires
            self.position() + header_len <= self.archive().len(),
            is_trailer == (name@ == trailer_name()),
        ensures
            is_trailer ==> (r matches Ok(e) && e.wf() && e.archive() == self.archive()
                && e.spec_name() == name@ && e.spec_is_trailer()),
            !is_trailer && self.position() + header_len + file_size > self.archive().len() ==> r
                == Err::<ArchiveEntry<'a>, ExtractError>(ExtractError::CorruptArchive),
            !is_trailer && self.position() + header_len + file_size <= self.archive().len() ==> (
            r matches Ok(e) && e.wf() && e.archive() == self.archive() && e.spec_name() == name@
                && !e.spec_is_trailer() && e.body_range() == (
                self.position() + header_len,
                file_size as int,
            )),
    {
        let len = self.data.len();
        let start = self.pos + header_len;
        if is_trailer {
            Ok(
                ArchiveEntry {
                    data: self.data,
                    name,
                    is_trailer: true,
                    body_start: start,
                    body_len: 0,
                },
            )
        } else if file_size as usize > len - start {
            Err(ExtractError::CorruptArchive)
        } else {
            Ok(
                ArchiveEntry {
                    data: self.data,
                    name,
                    is_trailer: false,
                    body_start: start,
                    body_len: file_size as usize,
                },
            )
        }
    }
}

impl<'a> ArchiveEntry<'a> {
    /// The body lies within the archive.
    pub closed spec fn wf(&self) -> bool {
        &&& self.body_start + self.body_len <= self.data@.len()
        &&& self.data@.len() <= usize::MAX
    }

    pub closed spec fn archive(&self) -> Seq<u8> {
        self.data@
    }

    pub closed spec fn spec_name(&self) -> Seq<char> {
        self.name@
    }

    pub closed spec fn spec_is_trailer(&self) -> bool {
        self.is_trailer
    }

    /// Start and length of the body within the archive.
    pub closed spec fn body_range(&self) -> (int, int) {
        (self.body_start as int, self.body_len as int)
    }

    /// The entry's path.
    pub fn name(&self) -> (r: &String)
        ensures
            r@ == self.spec_name(),
    {
        &self.name
    }

    /// Whether this is the entry that ends the archive.
    pub fn is_trailer(&self) -> (r: bool)
        ensures
            r == self.spec_is_trailer(),
    {
        self.is_trailer
    }

    /// The entry's whole body.
    pub fn read_body(self) -> (r: &'a [u8])
        requires
            self.wf(),
        ensures
            r@ == self.archive().subrange(
                self.body_range().0,
                self.body_range().0 + self.body_range().1,
            ),
    {
        slice_subrange(self.data, self.body_start, self.body_start + self.body_len)
    }

    /// Skips the body and its padding, giving the walker for the next entry;
    /// `CorruptArchive` where the padding runs past the end of the archive.
    pub fn skip(self) -> (r: Result<ArchiveWalker<'a>, ExtractError>)
        requires
            self.wf(),
        ensures
            ({
                let next = self.body_range().0 + self.body_range().1 + pad4(self.body_range().1);
                if next <= self.archive().len() {
                    r matches Ok(w) && w.archive() == self.archive() && w.position() == next
                } else {
                    r == Err::<ArchiveWalker<'a>, ExtractError>(ExtractError::CorruptArchive)
                }
            }),
    {
        let end = self.body_start + self.body_len;
        let pad = (4 - self.body_len % 4) % 4;
        if pad > self.data.len() - end {
            Err(ExtractError::CorruptArchive)
        } else {
            Ok(ArchiveWalker { data: self.data, pos: end + pad })
        }
    }
}

/// Finds the body of the first entry of the archive `data` whose path is one
/// of the payload paths: `Ok(None)` where the trailer comes first.
pub fn find_payload_entry<'a>(data: &'a [u8]) -> (r: Result<Option<&'a [u8]>, ExtractError>)
    ensures
        match walk_from(data@, 0) {
            Err(e) => r == Err::<Option<&'a [u8]>, ExtractError>(e),
            Ok(None) => r == Ok::<Option<&'a [u8]>, ExtractError>(None),
            Ok(Some((start, len))) => r matches Ok(Some(b)) && b@ == data@.subrange(
                start,
                start + len,
            ),
        },
{
    let magisk = "overlay.d/sbin/magisk.xz".to_owned();
    let magisk32 = "overlay.d/sbin/magisk32.xz".to_owned();
    proof {
        reveal_strlit("overlay.d/sbin/magisk.xz");
        reveal_strlit("overlay.d/sbin/magisk32.xz");
    }
    let mut walker = ArchiveWalker::new(data);
    loop
        invariant
            walker.archive() == data@,
            0 <= walker.position() <= data@.len(),
            walk_from(data@, walker.position()) == walk_from(data@, 0),
            magisk@ == "overlay.d/sbin/magisk.xz"@,
            magisk32@ == "overlay.d/sbin/magisk32.xz"@,
        decreases data@.len() - walker.position(),
    {
        let ghost pos = walker.position();
        let entry = match walker.next_entry() {
            Err(e) => {
                return Err(e);
            },
            Ok(entry) => entry,
        };
        if entry.is_trailer() {
            return Ok(None);
        }
        if *entry.name() == magisk || *entry.name() == magisk32 {
            return Ok(Some(entry.read_body()));
        }
        let ghost hlen = entry_at(data@, pos).unwrap().2;
        walker = match entry.skip() {
            Err(e) => {
                return Err(e);
            },
            Ok(w) => w,
        };
        assert(hlen > 0);
    }
}

/// The payload bundled in the (already decompressed) ramdisk archive,
/// decompressed: `Ok(None)` where the archive holds no payload entry,
/// `DecompressionFailed` where the entry found is not a valid xz stream.
pub fn get_magisk_bin(ramdisk: &[u8]) -> (r: Result<Option<Vec<u8>>, ExtractError>)
    ensures
        match walk_from(ramdisk@, 0) {
            Err(e) => r == Err::<Option<Vec<u8>>, ExtractError>(e),
            Ok(None) => r == Ok::<Option<Vec<u8>>, ExtractError>(None),
            Ok(Some((start, len))) => match xz_decompressed_of(ramdisk@.subrange(start, start + len)) {
                None => r == Err::<Option<Vec<u8>>, ExtractError>(ExtractError::DecompressionFailed),
                Some(p) => r matches Ok(Some(v)) && v@ == p,
            },
        },
{
    match find_payload_entry(ramdisk) {
        Err(e) => Err(e),
        Ok(None) => Ok(None),
        Ok(Some(body)) => match xz_decompress(body) {
            Err(_) => Err(ExtractError::DecompressionFailed),
            Ok(v) => Ok(Some(v)),
        },
    }
}

/// Decompresses the gzip-compressed ramdisk; `DecompressionFailed` where the
/// decoder rejects it.
pub fn decompress_ramdisk(compressed: &[u8]) -> (r: Result<Vec<u8>, ExtractError>)
    ensures
        gunzip_of(compressed@) is None ==> r == Err::<Vec<u8>, ExtractError>(
            ExtractError::DecompressionFailed,
        ),
        gunzip_of(compressed@) matches Some(v) ==> r matches Ok(o) && o@ == v,
{
    match gunzip(compressed) {
        Err(_) => Err(ExtractError::DecompressionFailed),
        Ok(v) => Ok(v),
    }
}

} // verus!
