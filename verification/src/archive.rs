use vstd::prelude::*;
use std::io::Cursor;
use std::io::Write;
use zip::result::ZipError;
use zip::ZipWriter;
use crate::output::ZipCompression;

verus! {

/// A zip archive being written into memory: the zip crate's writer over a
/// growing byte buffer. `zip_entries` and `zip_writer_state` describe it.
#[verifier::external_body]
pub struct InMemoryZip {
    writer: ZipWriter<Cursor<Vec<u8>>>,
}

/// An outside type: the zip crate's error.
#[verifier::external_type_specification]
#[verifier::external_body]
pub struct ExZipError(ZipError);

/// An outside type: std's I/O error.
#[verifier::external_type_specification]
#[verifier::external_body]
pub struct ExIoError(std::io::Error);

/// The entries that an in-memory zip writer holds so far, in the order they
/// were started: each entry's name, compression, unix permission bits and
/// the (uncompressed) data written into it.
pub uninterp spec fn zip_entries(writer: InMemoryZip) -> Seq<(Seq<char>, ZipCompression, u32, Seq<u8>)>;

/// What the buffer of an in-memory zip writer holds.
pub enum ZipWriterState {
    /// Exactly the headers and data of its entries, and no entry is open.
    Ready,
    /// Exactly the headers and data of its entries, and the entry started
    /// last is open for data.
    EntryOpen,
    /// Anything else, such as the remains of an entry the crate abandoned
    /// after an error.
    Unknown,
}

/// The state of an in-memory zip writer's buffer.
pub uninterp spec fn zip_writer_state(writer: InMemoryZip) -> ZipWriterState;

/// The bytes of the archive that finishing an in-memory zip writer gives:
/// its buffer, completed by the central directory and the end record.
pub uninterp spec fn zip_finished_bytes(writer: InMemoryZip) -> Seq<u8>;

/// Whether `i` is where a `/`-separated part of `name` begins.
pub open spec fn starts_part(name: Seq<char>, i: int) -> bool {
    i == 0 || name[i - 1] == '/'
}

/// A name that the zip crate takes over unchanged as an entry's path on
/// every kind of host: `/`-separated parts, none of them empty, `.` or `..`,
/// and no `\`.
pub open spec fn is_plain_entry_name(name: Seq<char>) -> bool {
    &&& name.len() > 0
    &&& !name.contains('\\')
    &&& name.last() != '/'
    &&& forall|i: int|
        #![trigger name[i]]
        0 <= i < name.len() && starts_part(name, i) ==> {
            &&& name[i] != '/'
            &&& !(name[i] == '.' && (i + 1 == name.len() || name[i + 1] == '/'))
            &&& !(name[i] == '.' && i + 1 < name.len() && name[i + 1] == '.' && (i + 2 == name.len()
                || name[i + 2] == '/'))
        }
}

/// The longest entry name, in characters, that always fits the 64 KiB
/// limit of a zip entry header.
pub const MAX_ENTRY_NAME_LEN: usize = 16000;

/// A bound on the size of an archive this library promises to write: the
/// zip crate needs no 64-bit extensions below it.
pub const ARCHIVE_SIZE_BOUND: u64 = 0x8000_0000;

/// The room one entry takes in an archive, counted generously: its data,
/// its name (at most four bytes a character) in the local and central
/// headers, and the fixed parts of both headers.
pub open spec fn entry_weight(name: Seq<char>, data_len: nat) -> nat {
    data_len + 8 * name.len() + 128
}

/// The room the entries of an archive take.
pub open spec fn entries_weight(entries: Seq<(Seq<char>, ZipCompression, u32, Seq<u8>)>) -> nat
    decreases entries.len(),
{
    if entries.len() == 0 {
        0
    } else {
        entries_weight(entries.drop_last()) + entry_weight(entries.last().0, entries.last().3.len())
    }
}

/// The bytes that a zip archive's end record starts with: its signature,
/// the disk numbers (0) and, twice, its number of entries (at most
/// `0xFFFF`, above which the count lives in a 64-bit record), little endian.
pub open spec fn end_record_start(entry_count: nat) -> Seq<u8> {
    let c: nat = if entry_count < 0xFFFF { entry_count } else { 0xFFFF };
    seq![
        0x50u8, 0x4bu8, 0x05u8, 0x06u8, 0u8, 0u8, 0u8, 0u8,
        (c % 256) as u8, (c / 256) as u8, (c % 256) as u8, (c / 256) as u8,
    ]
}

/// `bytes` end with the 22-byte end record of a zip archive of
/// `entry_count` entries and no comment.
pub open spec fn ends_with_end_record(bytes: Seq<u8>, entry_count: nat) -> bool {
    &&& bytes.len() >= 22
    &&& bytes.subrange(bytes.len() - 22, bytes.len() - 10) == end_record_start(entry_count)
    &&& bytes.subrange(bytes.len() - 2, bytes.len() as int) == seq![0u8, 0u8]
}

/// The zip archive with no entries: only its end record, with every field
/// zero.
pub open spec fn empty_archive() -> Seq<u8> {
    seq![0x50u8, 0x4bu8, 0x05u8, 0x06u8] + Seq::new(18, |i: int| 0u8)
}

/// `ZipWriter::new` over an empty `Cursor<Vec<u8>>`: the writer holds no
/// entries, and its buffer nothing.
#[verifier::external_body]
fn zip_writer_new() -> (writer: InMemoryZip)
    ensures
        zip_entries(writer) == Seq::<(Seq<char>, ZipCompression, u32, Seq<u8>)>::empty(),
        zip_writer_state(writer) is Ready,
{
    InMemoryZip { writer: ZipWriter::new(Cursor::new(Vec::new())) }
}

/// `ZipWriter::start_file_from_path` with `SimpleFileOptions::default()`,
/// the given compression method and unix permissions. On success the
/// writer holds one more entry, open for data, with no data yet, the given
/// compression and the permission bits masked to `0o777`; the earlier
/// entries are unchanged. The entry's name is the one given where that name
/// is plain (`is_plain_entry_name`); for other names the crate normalises
/// the path in a way that depends on the host's path separator, and the
/// contract leaves the name unsaid. The crate refuses a name already in the
/// archive and a header of 64 KiB or more, and a previous entry whose size
/// needs 64-bit fields; over a sound buffer, with a plain, short, new name
/// and the archive below `ARCHIVE_SIZE_BOUND`, none of these can happen and
/// the call succeeds. After an error nothing is stated of the writer.
#[verifier::external_body]
fn zip_start_entry(
    writer: &mut InMemoryZip,
    name: &str,
    compression: ZipCompression,
    permissions: u32,
) -> (r: Result<(), ZipError>)
    ensures
        r is Ok ==> zip_entries(*final(writer)).len() == zip_entries(*old(writer)).len() + 1,
        r is Ok ==> zip_entries(*final(writer)).drop_last() == zip_entries(*old(writer)),
        r is Ok ==> zip_entries(*final(writer)).last().1 == compression,
        r is Ok ==> zip_entries(*final(writer)).last().2 == permissions & 0o777u32,
        r is Ok ==> zip_entries(*final(writer)).last().3 == Seq::<u8>::empty(),
        r is Ok && is_plain_entry_name(name@) ==> zip_entries(*final(writer)).last().0 == name@,
        r is Ok && !(zip_writer_state(*old(writer)) is Unknown) ==> zip_writer_state(*final(writer)) is EntryOpen,
        !(zip_writer_state(*old(writer)) is Unknown)
            && is_plain_entry_name(name@)
            && name@.len() <= MAX_ENTRY_NAME_LEN
            && (forall|j: int| 0 <= j < zip_entries(*old(writer)).len() ==> #[trigger] zip_entries(*old(writer))[j].0 != name@)
            && entries_weight(zip_entries(*old(writer))) + entry_weight(name@, 0) < ARCHIVE_SIZE_BOUND
            ==> r is Ok,
{
    let method = match compression {
        ZipCompression::Stored => zip::CompressionMethod::Stored,
        ZipCompression::Deflated => zip::CompressionMethod::Deflated,
    };
    let options = zip::write::SimpleFileOptions::default()
        .compression_method(method)
        .unix_permissions(permissions);
    #[allow(deprecated)]
    writer.writer.start_file_from_path(std::path::Path::new(name), options)
}

/// `Write::write_all` on the zip writer: on success the data is appended to
/// the entry started last, which stays open (empty data leaves the writer
/// as it was). Writing without an open entry is an error; with an entry
/// open over a sound buffer and the archive staying below
/// `ARCHIVE_SIZE_BOUND` the in-memory write succeeds. After an error
/// nothing is stated of the writer.
#[verifier::external_body]
fn zip_write_data(writer: &mut InMemoryZip, data: &[u8]) -> (r: Result<(), std::io::Error>)
    ensures
        r is Ok && data@.len() == 0 ==> zip_entries(*final(writer)) == zip_entries(*old(writer)),
        r is Ok && data@.len() == 0 ==> zip_writer_state(*final(writer)) == zip_writer_state(*old(writer)),
        r is Ok && data@.len() > 0 ==> zip_entries(*old(writer)).len() > 0,
        r is Ok && data@.len() > 0 ==> zip_entries(*final(writer)) == zip_entries(*old(writer)).drop_last().push(
            ({
                let e = zip_entries(*old(writer)).last();
                (e.0, e.1, e.2, e.3 + data@)
            }),
        ),
        r is Ok && zip_writer_state(*old(writer)) is EntryOpen ==> zip_writer_state(*final(writer)) is EntryOpen,
        zip_writer_state(*old(writer)) is EntryOpen
            && entries_weight(zip_entries(*old(writer))) + data@.len() < ARCHIVE_SIZE_BOUND
            ==> r is Ok,
{
    writer.writer.write_all(data)
}

/// `ZipWriter::finish`, handing back the bytes of the finished archive
/// (`zip_finished_bytes` of the writer). On success they end with the
/// archive's end record, which counts its entries (the archive has no
/// comment). Over a sound buffer below `ARCHIVE_SIZE_BOUND` it succeeds,
/// and an archive with no entries is just that record.
#[verifier::external_body]
fn zip_finish(writer: InMemoryZip) -> (r: Result<Vec<u8>, ZipError>)
    ensures
        r is Ok ==> r->Ok_0@ == zip_finished_bytes(writer),
        r is Ok ==> ends_with_end_record(r->Ok_0@, zip_entries(writer).len()),
        !(zip_writer_state(writer) is Unknown) && entries_weight(zip_entries(writer)) < ARCHIVE_SIZE_BOUND ==> r is Ok,
        r is Ok && !(zip_writer_state(writer) is Unknown) && zip_entries(writer).len() == 0 ==> r->Ok_0@ == empty_archive(),
{
    match writer.writer.finish() {
        Ok(cursor) => Ok(cursor.into_inner()),
        Err(e) => Err(e),
    }
}

/// An encoded image, to be packed into an archive under `name`.
pub struct EncodedImage {
    pub name: String,
    pub data: Vec<u8>,
}

/// Why an archive could not be written.
pub enum ArchiveError {
    /// The zip crate refused an entry or the finishing of the archive.
    Zip(ZipError),
    /// Writing an entry's data failed.
    Io(std::io::Error),
}

/// Unix permissions given to every entry of an image archive.
pub const ARCHIVE_PERMISSIONS: u32 = 0o755;

/// The room the images take as archive entries.
pub open spec fn images_weight(images: Seq<EncodedImage>) -> nat
    decreases images.len(),
{
    if images.len() == 0 {
        0
    } else {
        images_weight(images.drop_last()) + entry_weight(images.last().name@, images.last().data@.len())
    }
}

/// The images can join an archive holding `entries` without the zip crate
/// refusing them: each name is plain and short, no two names are equal,
/// none is already in the archive, and the archive stays below
/// `ARCHIVE_SIZE_BOUND`.
pub open spec fn images_fit(entries: Seq<(Seq<char>, ZipCompression, u32, Seq<u8>)>, images: Seq<EncodedImage>) -> bool {
    &&& forall|k: int| 0 <= k < images.len() ==> is_plain_entry_name(#[trigger] images[k].name@)
    &&& forall|k: int| 0 <= k < images.len() ==> (#[trigger] images[k].name@).len() <= MAX_ENTRY_NAME_LEN
    &&& forall|k: int, l: int| 0 <= k < l < images.len() ==> #[trigger] images[k].name@ != #[trigger] images[l].name@
    &&& forall|k: int, j: int| 0 <= k < images.len() && 0 <= j < entries.len() ==> #[trigger] entries[j].0 != #[trigger] images[k].name@
    &&& entries_weight(entries) + images_weight(images) < ARCHIVE_SIZE_BOUND
}

/// The archive entry that `image` becomes: it holds the image's data, with
/// the given compression and the archive permissions, under the image's
/// name where that name is plain.
pub open spec fn is_entry_for(
    entry: (Seq<char>, ZipCompression, u32, Seq<u8>),
    image: EncodedImage,
    compression: ZipCompression,
) -> bool {
    &&& entry.1 == compression
    &&& entry.2 == ARCHIVE_PERMISSIONS
    &&& entry.3 == image.data@
    &&& is_plain_entry_name(image.name@) ==> entry.0 == image.name@
}

/// `entries` are the archive entries of `images`, one for each, in order.
pub open spec fn are_entries_for(
    entries: Seq<(Seq<char>, ZipCompression, u32, Seq<u8>)>,
    images: Seq<EncodedImage>,
    compression: ZipCompression,
) -> bool {
    &&& entries.len() == images.len()
    &&& forall|i: int| 0 <= i < images.len() ==> #[trigger] is_entry_for(entries[i], images[i], compression)
}

/// The images of a prefix take no more room than all of them.
proof fn lemma_images_weight_prefix(images: Seq<EncodedImage>, i: int)
    requires
        0 <= i <= images.len(),
    ensures
        images_weight(images.take(i)) <= images_weight(images),
        i < images.len() ==> images_weight(images.take(i + 1)) == images_weight(images.take(i))
            + entry_weight(images[i].name@, images[i].data@.len()),
    decreases images.len(),
{
    if i < images.len() {
        assert(images.take(i + 1).drop_last() =~= images.take(i));
        lemma_images_weight_prefix(images.drop_last(), i);
        assert(images.drop_last().take(i) =~= images.take(i));
        if i + 1 < images.len() {
            lemma_images_weight_prefix(images.drop_last(), i + 1);
            assert(images.drop_last().take(i + 1) =~= images.take(i + 1));
        } else {
            assert(images.take(i + 1) =~= images);
        }
    } else {
        assert(images.take(i) =~= images);
    }
}

impl InMemoryZip {
    /// A zip archive in memory with no entries yet.
    pub fn new() -> (zip: Self)
        ensures
            zip_entries(zip) == Seq::<(Seq<char>, ZipCompression, u32, Seq<u8>)>::empty(),
            zip_writer_state(zip) is Ready,
    {
        zip_writer_new()
    }
}

/// Adds each image, in order, as an entry of `zip` and writes its data
/// there. On success the entries already in `zip` are kept and followed by
/// exactly one entry for each image: its data, the given compression,
/// permissions `0o755`, and the image's name where that name is plain. It
/// stops at the first entry the zip crate refuses or whose data cannot be
/// written. Over a sound buffer it succeeds whenever the images fit
/// (`images_fit`): plain, short, new and distinct names, and an archive below
/// `ARCHIVE_SIZE_BOUND`. With no images it succeeds, leaving `zip` as it was.
pub fn add_images(zip: &mut InMemoryZip, images: &Vec<EncodedImage>, compression: ZipCompression) -> (r: Result<(), ArchiveError>)
    ensures
        images@.len() == 0 ==> r is Ok,
        images@.len() == 0 ==> zip_entries(*final(zip)) == zip_entries(*old(zip)),
        !(zip_writer_state(*old(zip)) is Unknown) && images_fit(zip_entries(*old(zip)), images@) ==> r is Ok,
        r is Ok && !(zip_writer_state(*old(zip)) is Unknown) ==> !(zip_writer_state(*final(zip)) is Unknown),
        r is Ok && images_fit(zip_entries(*old(zip)), images@) ==> entries_weight(zip_entries(*final(zip)))
            == entries_weight(zip_entries(*old(zip))) + images_weight(images@),
        r is Ok ==> zip_entries(*final(zip)).len() >= zip_entries(*old(zip)).len(),
        r is Ok ==> zip_entries(*final(zip)).take(zip_entries(*old(zip)).len() as int) == zip_entries(*old(zip)),
        r is Ok ==> are_entries_for(
            zip_entries(*final(zip)).skip(zip_entries(*old(zip)).len() as int),
            images@,
            compression,
        ),
        r is Ok ==> zip_entries(*final(zip)).len() == zip_entries(*old(zip)).len() + images@.len(),
        r is Ok ==> forall|k: int| 0 <= k < images@.len() ==> {
            let e = #[trigger] zip_entries(*final(zip))[zip_entries(*old(zip)).len() + k];
            &&& e.1 == compression
            &&& e.2 == 0o755u32
            &&& e.3 == images@[k].data@
            &&& is_plain_entry_name(images@[k].name@) ==> e.0 == images@[k].name@
        },
{
    let ghost start = zip_entries(*zip);
    let ghost sound = !(zip_writer_state(*zip) is Unknown);
    let ghost fits = images_fit(start, images@);
    let mut i: usize = 0;
    while i < images.len()
        invariant
            i <= images.len(),
            start == zip_entries(*old(zip)),
            sound == !(zip_writer_state(*old(zip)) is Unknown),
            fits == images_fit(start, images@),
            zip_entries(*zip).len() == start.len() + i,
            zip_entries(*zip).take(start.len() as int) == start,
            forall|k: int| 0 <= k < i ==> #[trigger] is_entry_for(zip_entries(*zip)[start.len() + k], images@[k], compression),
            sound ==> !(zip_writer_state(*zip) is Unknown),
            fits ==> entries_weight(zip_entries(*zip)) == entries_weight(start) + images_weight(images@.take(i as int)),
        decreases images.len() - i,
    {
        assert(ARCHIVE_PERMISSIONS & 0o777u32 == ARCHIVE_PERMISSIONS) by (bit_vector);
        let image = &images[i];
        let ghost before = zip_entries(*zip);
        proof {
            lemma_images_weight_prefix(images@, i as int);
            lemma_images_weight_prefix(images@, i as int + 1);
            if sound && fits {
                assert(is_plain_entry_name(images@[i as int].name@));
                assert(images@[i as int].name@.len() <= MAX_ENTRY_NAME_LEN);
                assert forall|j: int| 0 <= j < before.len() implies #[trigger] before[j].0 != image.name@ by {
                    if j < start.len() {
                        assert(before[j] == before.take(start.len() as int)[j]);
                        assert(start[j].0 != images@[i as int].name@);
                    } else {
                        let k = j - start.len();
                        assert(is_entry_for(before[start.len() + k], images@[k], compression));
                        assert(is_plain_entry_name(images@[k].name@));
                        assert(images@[k].name@ != images@[i as int].name@);
                    }
                }
            }
        }
        match zip_start_entry(zip, image.name.as_str(), compression, ARCHIVE_PERMISSIONS) {
            Ok(()) => {},
            Err(e) => {
                return Err(ArchiveError::Zip(e));
            },
        }
        let ghost started = zip_entries(*zip);
        proof {
            if fits {
                assert(started.drop_last() == before);
                assert(entries_weight(started) == entries_weight(before) + entry_weight(image.name@, 0));
            }
        }
        let bytes = image.data.as_slice();
        assert(bytes@ == image.data@);
        match zip_write_data(zip, bytes) {
            Ok(()) => {},
            Err(e) => {
                return Err(ArchiveError::Io(e));
            },
        }
        let ghost after = zip_entries(*zip);
        assert(started.last().3 + image.data@ =~= image.data@);
        assert(image.data@.len() == 0 ==> started.last().3 =~= image.data@);
        assert(after.drop_last() == before);
        assert(after.last() == (started.last().0, compression, ARCHIVE_PERMISSIONS, image.data@));
        proof {
            if fits {
                assert(after.last().0 == image.name@);
                assert(entries_weight(after) == entries_weight(before) + entry_weight(image.name@, image.data@.len()));
            }
        }
        assert forall|k: int| 0 <= k < i + 1 implies #[trigger] is_entry_for(zip_entries(*zip)[start.len() + k], images@[k], compression) by {
            if k < i {
                assert(after[start.len() + k] == before[start.len() + k]);
            }
        }
        assert(after.take(start.len() as int) =~= start) by {
            assert(forall|k: int| 0 <= k < start.len() ==> after[k] == before[k]);
            assert(before.take(start.len() as int) == start);
        }
        i = i + 1;
    }
    let ghost fin = zip_entries(*zip);
    assert(images@.take(images@.len() as int) =~= images@);
    assert(images@.len() == 0 ==> fin =~= start) by {
        if images@.len() == 0 {
            assert(fin.len() == start.len());
            assert(fin == fin.take(start.len() as int));
        }
    }
    assert(fin.skip(start.len() as int).len() == images@.len());
    assert forall|k: int| 0 <= k < images@.len() implies #[trigger] is_entry_for(fin.skip(start.len() as int)[k], images@[k], compression) by {
        assert(fin.skip(start.len() as int)[k] == fin[start.len() + k]);
    }
    assert forall|k: int| 0 <= k < images@.len() implies {
        let e = #[trigger] fin[start.len() + k];
        &&& e.1 == compression
        &&& e.2 == 0o755u32
        &&& e.3 == images@[k].data@
        &&& is_plain_entry_name(images@[k].name@) ==> e.0 == images@[k].name@
    } by {
        assert(is_entry_for(fin[start.len() + k], images@[k], compression));
    }
    Ok(())
}

/// Finishes the archive and hands back its bytes (`zip_finished_bytes`),
/// which end with the archive's end record counting its entries; a refusal
/// of the zip crate is reported as `ArchiveError::Zip`. Over a sound buffer
/// below `ARCHIVE_SIZE_BOUND` it succeeds, and with no entries the bytes are
/// those of the empty archive.
pub fn finish_archive(zip: InMemoryZip) -> (r: Result<Vec<u8>, ArchiveError>)
    ensures
        r is Ok ==> r->Ok_0@ == zip_finished_bytes(zip),
        r is Err ==> r->Err_0 is Zip,
        r is Ok ==> ends_with_end_record(r->Ok_0@, zip_entries(zip).len()),
        !(zip_writer_state(zip) is Unknown) && entries_weight(zip_entries(zip)) < ARCHIVE_SIZE_BOUND ==> r is Ok,
        r is Ok && !(zip_writer_state(zip) is Unknown) && zip_entries(zip).len() == 0 ==> r->Ok_0@ == empty_archive(),
{
    match zip_finish(zip) {
        Ok(bytes) => Ok(bytes),
        Err(e) => Err(ArchiveError::Zip(e)),
    }
}

/// Packs the encoded images, in order, into a zip archive in memory, each
/// image as an entry under its name, with the given compression and unix
/// permissions `0o755` (`add_images`), and hands back the archive's bytes
/// (`finish_archive`): the finished bytes of a sound writer that holds exactly
/// one entry for each image, in order, and nothing else; they end with the
/// end record counting one entry per image. It succeeds whenever the images fit an empty archive
/// (`images_fit`); with no images the bytes are those of the empty archive.
/// It stops at the first entry the zip crate refuses or whose data cannot be
/// written.
pub fn zip_images(images: &Vec<EncodedImage>, compression: ZipCompression) -> (r: Result<Vec<u8>, ArchiveError>)
    ensures
        images_fit(Seq::empty(), images@) ==> r is Ok,
        r is Ok ==> exists|w: InMemoryZip|
            #![trigger zip_finished_bytes(w)]
            are_entries_for(zip_entries(w), images@, compression)
                && zip_entries(w).len() == images@.len()
                && (forall|k: int| 0 <= k < images@.len() ==> {
                    let e = #[trigger] zip_entries(w)[k];
                    &&& e.1 == compression
                    &&& e.2 == 0o755u32
                    &&& e.3 == images@[k].data@
                    &&& is_plain_entry_name(images@[k].name@) ==> e.0 == images@[k].name@
                })
                && !(zip_writer_state(w) is Unknown)
                && r->Ok_0@ == zip_finished_bytes(w),
        r is Ok ==> ends_with_end_record(r->Ok_0@, images@.len()),
        images@.len() == 0 ==> r is Ok && r->Ok_0@ == empty_archive(),
{
    let mut zip = InMemoryZip::new();
    let ghost empty = zip_entries(zip);
    match add_images(&mut zip, images, compression) {
        Ok(()) => {},
        Err(e) => {
            return Err(e);
        },
    }
    proof {
        assert(zip_entries(zip).skip(0) =~= zip_entries(zip));
        assert(entries_weight(empty) == 0);
    }
    let ghost filled = zip;
    let r = finish_archive(zip);
    proof {
        if r is Ok {
            assert(are_entries_for(zip_entries(filled), images@, compression));
            assert forall|k: int| 0 <= k < images@.len() implies {
                let e = #[trigger] zip_entries(filled)[k];
                &&& e.1 == compression
                &&& e.2 == 0o755u32
                &&& e.3 == images@[k].data@
                &&& is_plain_entry_name(images@[k].name@) ==> e.0 == images@[k].name@
            } by {
                assert(zip_entries(filled)[0 + k] == zip_entries(filled)[k]);
            }
            assert(zip_finished_bytes(filled) == r->Ok_0@);
        }
    }
    r
}

} // verus!
