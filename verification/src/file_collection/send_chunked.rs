//! The transfer of files over an established connection. The sender writes, for
//! each file, its header and then its contents in encrypted chunks; the first
//! chunk is authenticated together with the header. The receiver reads the header
//! in parts, checks the file name, and decrypts the chunks in turn.
//!
//! Both sides are state machines: the application reads and writes the bytes,
//! and the machines decide what comes next.
use vstd::prelude::*;
use vstd::slice::slice_subrange;
use vstd::utf8::{decode_utf8, encode_utf8, valid_utf8};

use crate::bytes::{append_bytes, read_u32_be, read_u64_be, u32_of_be, u64_of_be};
use crate::discovery::connection::{DecodeError, IndicationBytes, Serialize};
use crate::encryption::cipher::{chunk_open, is_sealed_chunk, ChunkOpening, Cipher, TransferError, AUTH_TAG_SIZE, MAX_MESSAGE_LEN, NONCE_SIZE};
use crate::file_collection::tree_walking::FileHeader;
use crate::text::{chars_equal_str, chars_of, utf8_to_string};

verus! {

/// The size of the first part of a file header: the indication byte and the
/// name length.
pub const HEADER_PREFIX_SIZE: usize = 5;

/// The size of the last part of a file header: the file size and the chunk size.
pub const FILE_METADATA_SIZE: usize = 12;

/// What decoding the last part of a file header gives: the file size, and the
/// plaintext chunk size (the transmitted chunk size less a nonce), which must
/// leave room for at least one byte.
pub open spec fn metadata_decode(m: Seq<u8>) -> Result<(u64, usize), CollectFailure> {
    if m.len() < FILE_METADATA_SIZE {
        Err(CollectFailure::Decode(DecodeError::Truncated { expected: FILE_METADATA_SIZE, actual: m.len() as usize }))
    } else {
        let transmitted = u32_of_be(m.subrange(8, 12)) as usize;
        if transmitted <= NONCE_SIZE {
            Err(CollectFailure::InvalidChunkSize)
        } else {
            Ok((u64_of_be(m.subrange(0, 8)), (transmitted - NONCE_SIZE) as usize))
        }
    }
}

/// Why receiving failed, without the cipher's error value.
pub enum CollectFailure {
    Decode(DecodeError),
    InvalidChunkSize,
    /// A chunk did not authenticate.
    Refused,
}

/// The failure that a transfer error stands for.
pub open spec fn failure_of(e: TransferError) -> CollectFailure {
    match e {
        TransferError::Decode(d) => CollectFailure::Decode(d),
        TransferError::InvalidChunkSize => CollectFailure::InvalidChunkSize,
        _ => CollectFailure::Refused,
    }
}

/// Decodes the last part of a file header: the file size and the plaintext chunk
/// size.
pub fn decode_file_metadata(metadata: &[u8]) -> (r: Result<(u64, usize), TransferError>)
    ensures
        r matches Ok(v) ==> metadata_decode(metadata@) == Ok::<(u64, usize), CollectFailure>(v),
        r matches Err(e) ==> metadata_decode(metadata@) == Err::<(u64, usize), CollectFailure>(failure_of(e))
            && (e is Decode || e is InvalidChunkSize),
{
    if metadata.len() < FILE_METADATA_SIZE {
        return Err(TransferError::Decode(DecodeError::Truncated { expected: FILE_METADATA_SIZE, actual: metadata.len() }));
    }
    let file_size = read_u64_be(metadata, 0);
    let transmitted_chunk_size = read_u32_be(metadata, 8) as usize;
    if transmitted_chunk_size <= NONCE_SIZE {
        return Err(TransferError::InvalidChunkSize);
    }
    Ok((file_size, transmitted_chunk_size - NONCE_SIZE))
}

/// Whether `name` is a plain file name: what `Path::file_name` gives back for it
/// unchanged. It is not empty, not `.` or `..`, and holds no `/`.
pub open spec fn is_plain_file_name(name: Seq<char>) -> bool {
    &&& name.len() > 0
    &&& name != "."@
    &&& name != ".."@
    &&& !name.contains('/')
}

/// Checks that a received file name names a file in the output directory and not
/// a path elsewhere.
pub fn validate_file_name(file_name: &str) -> (r: Result<(), DecodeError>)
    ensures
        r is Ok <==> is_plain_file_name(file_name@),
        r is Ok <==> (file_name@.len() > 0 && file_name@ != "."@ && file_name@ != ".."@ && !file_name@.contains('/')),
        r matches Err(e) ==> e == DecodeError::InvalidValue("invalid file name"),
{
    let name = chars_of(file_name);
    if name.len() == 0 || chars_equal_str(&name, ".") || chars_equal_str(&name, "..") {
        return Err(DecodeError::InvalidValue("invalid file name"));
    }
    match crate::text::find_char(&name, 0, '/') {
        Some(_) => Err(DecodeError::InvalidValue("invalid file name")),
        None => Ok(()),
    }
}

/// Which names are plain file names: exactly the non-empty names other than `.`
/// and `..` that hold no `/`, whatever other characters (any Unicode scalar
/// value) they hold.
pub proof fn lemma_plain_file_names(name: Seq<char>)
    ensures
        is_plain_file_name(name) <==> (name.len() > 0 && name != "."@ && name != ".."@ && !name.contains('/')),
{
}

/// The receiver accepts every plain file name that arrives as UTF-8: waiting for
/// the name of a file, it takes in the UTF-8 bytes of any non-empty name other
/// than `.` and `..` that holds no `/`, and goes on to the file's size with that
/// name; a name with a `/` in it is refused.
pub proof fn lemma_receiver_takes_plain_names(files_left: usize, prefix: Seq<u8>, name: Seq<char>, key: Seq<u8>)
    ensures
        name.len() > 0 && name != "."@ && name != ".."@ && !name.contains('/') ==> collect_next(
            (files_left, PhaseView::Name(prefix)),
            encode_utf8(name),
            key,
        ) == Ok::<_, CollectFailure>(
            ((files_left, PhaseView::Metadata(prefix + encode_utf8(name), name)), None::<Seq<char>>, None::<Seq<u8>>),
        ),
        name.contains('/') ==> collect_next((files_left, PhaseView::Name(prefix)), encode_utf8(name), key) is Err,
{
    vstd::utf8::encode_utf8_valid_utf8(name);
    vstd::utf8::encode_utf8_decode_utf8(name);
}

/// The plaintext size of the next chunk of a file of which `remaining` bytes are
/// still to come, in chunks of `chunk_size` bytes.
pub open spec fn chunk_len(remaining: u64, chunk_size: usize) -> usize {
    if remaining < chunk_size { remaining as usize } else { chunk_size }
}

/// The plaintext sizes of the chunks of a file of `size` bytes sent in chunks of
/// `chunk_size` bytes.
pub open spec fn chunk_lens(size: nat, chunk_size: nat) -> Seq<nat>
    decreases size,
{
    if size == 0 || chunk_size == 0 {
        Seq::empty()
    } else if size <= chunk_size {
        seq![size]
    } else {
        seq![chunk_size] + chunk_lens((size - chunk_size) as nat, chunk_size)
    }
}

/// The sending side of one file: how much of it is still to be sent, in which
/// plaintext chunk size, and whether the next chunk is the first. The header's
/// chunk size is the size of a chunk on the wire, nonce included, and the
/// sender cuts the file exactly as the receiver does (see [`metadata_decode`]).
pub struct FileSender {
    remaining: u64,
    chunk_size: usize,
    first: bool,
}

impl View for FileSender {
    type V = (u64, usize, bool);

    closed spec fn view(&self) -> (u64, usize, bool) {
        (self.remaining, self.chunk_size, self.first)
    }
}

impl FileSender {
    /// The sender of the file that `header` describes, in plaintext chunks of the
    /// header's chunk size less a nonce; an error where that leaves no room for
    /// a byte.
    pub fn new(header: &FileHeader) -> (r: Result<Self, TransferError>)
        ensures
            r is Ok <==> header.spec_chunk_size() > NONCE_SIZE,
            r matches Ok(s) ==> s@ == (
                header.spec_file_size(),
                (header.spec_chunk_size() - NONCE_SIZE) as usize,
                true,
            ),
            r matches Err(e) ==> e is InvalidChunkSize,
    {
        let chunk_size = header.chunk_size() as usize;
        if chunk_size <= NONCE_SIZE {
            return Err(TransferError::InvalidChunkSize);
        }
        Ok(FileSender { remaining: header.file_size(), chunk_size: chunk_size - NONCE_SIZE, first: true })
    }

    /// How many bytes of the file to read next: 0 once it is all sent.
    pub fn next_read(&self) -> (r: usize)
        ensures
            r == chunk_len(self@.0, self@.1),
    {
        if self.remaining < self.chunk_size as u64 {
            self.remaining as usize
        } else {
            self.chunk_size
        }
    }

    /// Encrypts the next `chunk` of the file, which `header` describes: the first
    /// chunk with the serialized header as associated data, the others without.
    pub fn seal(&mut self, chunk: &[u8], header: &FileHeader, cipher: &Cipher) -> (r: Result<Vec<u8>, TransferError>)
        requires
            chunk@.len() == chunk_len(old(self)@.0, old(self)@.1),
            chunk@.len() > 0,
            old(self)@.1 > 0,
        ensures
            r is Ok ==> final(self)@ == ((old(self)@.0 - chunk@.len()) as u64, old(self)@.1, false),
            r matches Ok(c) ==> chunk_open(
                cipher.spec_key(),
                c@,
                if old(self)@.2 { header.spec_serialize() } else { Seq::empty() },
            ) == ChunkOpening::Opened(chunk@),
            r matches Ok(c) ==> is_sealed_chunk(
                cipher.spec_key(),
                c@,
                chunk@,
                if old(self)@.2 { header.spec_serialize() } else { Seq::empty() },
            ),
            r matches Ok(c) ==> c@.len() == chunk@.len() + AUTH_TAG_SIZE + NONCE_SIZE,
            r is Err ==> chunk@.len() >= MAX_MESSAGE_LEN,
    {
        let encrypted = if self.first {
            match cipher.encrypt_with_header(chunk, header) {
                Ok((_, c)) => c,
                Err(e) => return Err(e),
            }
        } else {
            match cipher.encrypt(chunk) {
                Ok(c) => c,
                Err(e) => return Err(e),
            }
        };
        self.remaining = self.remaining - chunk.len() as u64;
        self.first = false;
        Ok(encrypted)
    }
}

/// Where the receiver stands in the transfer.
pub enum CollectPhase {
    /// Waiting for the first part of a file header.
    Prefix,
    /// Waiting for the file name; the first part of the header is in.
    Name { prefix: Vec<u8> },
    /// Waiting for the file size and chunk size; the header so far is in and the
    /// name is checked.
    Metadata { header: Vec<u8>, name: String },
    /// Waiting for the next encrypted chunk.
    Chunks { header: Vec<u8>, remaining: u64, chunk_size: usize, first: bool },
    /// All files are received.
    Finished,
}

/// The phase of the receiver, by its views.
pub enum PhaseView {
    Prefix,
    Name(Seq<u8>),
    Metadata(Seq<u8>, Seq<char>),
    Chunks(Seq<u8>, u64, usize, bool),
    Finished,
}

impl View for CollectPhase {
    type V = PhaseView;

    open spec fn view(&self) -> PhaseView {
        match self {
            CollectPhase::Prefix => PhaseView::Prefix,
            CollectPhase::Name { prefix } => PhaseView::Name(prefix@),
            CollectPhase::Metadata { header, name } => PhaseView::Metadata(header@, name@),
            CollectPhase::Chunks { header, remaining, chunk_size, first } => PhaseView::Chunks(
                header@,
                *remaining,
                *chunk_size,
                *first,
            ),
            CollectPhase::Finished => PhaseView::Finished,
        }
    }
}

/// The receiving side of a transfer: how many files are still to come, and the
/// phase within the current one.
pub struct FileCollector {
    files_left: usize,
    phase: CollectPhase,
}

impl View for FileCollector {
    type V = (usize, PhaseView);

    closed spec fn view(&self) -> (usize, PhaseView) {
        (self.files_left, self.phase@)
    }
}

/// What the receiver asks for after a step.
pub struct CollectStep {
    /// Create the file of this name in the output directory.
    pub create: Option<String>,
    /// Append these bytes to the file last created.
    pub write: Option<Vec<u8>>,
    /// Read this many bytes and hand them to [`FileCollector::on_bytes`]; `None`
    /// once all files are received.
    pub next_read: Option<usize>,
}

/// How many bytes the receiver in state `v` waits for; `None` once it is done.
pub open spec fn expected_read(v: (usize, PhaseView)) -> Option<nat> {
    match v.1 {
        PhaseView::Prefix => Some(HEADER_PREFIX_SIZE as nat),
        PhaseView::Name(prefix) => Some(u32_of_be(prefix.subrange(1, 5)) as nat),
        PhaseView::Metadata(_, _) => Some(FILE_METADATA_SIZE as nat),
        PhaseView::Chunks(_, remaining, chunk_size, _) => Some(
            (chunk_len(remaining, chunk_size) + AUTH_TAG_SIZE + NONCE_SIZE) as nat,
        ),
        PhaseView::Finished => None,
    }
}

/// The receiver's state once the current file is complete and `files_left`
/// files (the completed one included) were to come.
pub open spec fn after_file(files_left: usize) -> (usize, PhaseView) {
    if files_left <= 1 {
        (0, PhaseView::Finished)
    } else {
        ((files_left - 1) as usize, PhaseView::Prefix)
    }
}

/// The well-formed states of the receiver: it waits for a phase only while files
/// are left, a name only after a full prefix, and chunks only of a file with
/// bytes left and a chunk size that leaves room for one.
pub open spec fn collector_wf(v: (usize, PhaseView)) -> bool {
    match v.1 {
        PhaseView::Finished => v.0 == 0,
        PhaseView::Name(prefix) => v.0 > 0 && prefix.len() == HEADER_PREFIX_SIZE,
        PhaseView::Chunks(_, remaining, chunk_size, _) => v.0 > 0 && remaining > 0 && chunk_size > 0
            && chunk_size + AUTH_TAG_SIZE + NONCE_SIZE <= usize::MAX,
        _ => v.0 > 0,
    }
}

/// What one step of the receiver in state `v` gives for the `data` it read, under
/// the key `key`: the next state, the name of a file to create, and the bytes to
/// write; or why it failed.
pub open spec fn collect_next(v: (usize, PhaseView), data: Seq<u8>, key: Seq<u8>) -> Result<
    ((usize, PhaseView), Option<Seq<char>>, Option<Seq<u8>>),
    CollectFailure,
> {
    match v.1 {
        PhaseView::Prefix => if data[0] != IndicationBytes::File.spec_byte() {
            Err(CollectFailure::Decode(DecodeError::UnexpectedIndicationType { expected: IndicationBytes::File, actual: data[0] }))
        } else {
            Ok(((v.0, PhaseView::Name(data)), None, None))
        },
        PhaseView::Name(prefix) => if !valid_utf8(data) {
            Err(CollectFailure::Decode(DecodeError::InvalidUtf8))
        } else if !is_plain_file_name(decode_utf8(data)) {
            Err(CollectFailure::Decode(DecodeError::InvalidValue("invalid file name")))
        } else {
            Ok(((v.0, PhaseView::Metadata(prefix + data, decode_utf8(data))), None, None))
        },
        PhaseView::Metadata(header, name) => match metadata_decode(data) {
            Err(f) => Err(f),
            Ok((size, chunk_size)) => if chunk_size + AUTH_TAG_SIZE + NONCE_SIZE > usize::MAX {
                Err(CollectFailure::InvalidChunkSize)
            } else if size == 0 {
                Ok((after_file(v.0), Some(name), None))
            } else {
                Ok(((v.0, PhaseView::Chunks(header + data, size, chunk_size, true)), Some(name), None))
            },
        },
        PhaseView::Chunks(header, remaining, chunk_size, first) => {
            let aad = if first { header } else { Seq::empty() };
            let plain = chunk_len(remaining, chunk_size);
            match chunk_open(key, data, aad) {
                ChunkOpening::TooShort => Err(CollectFailure::InvalidChunkSize),
                ChunkOpening::Refused => Err(CollectFailure::Refused),
                ChunkOpening::Opened(m) => if m.len() != plain {
                    Err(CollectFailure::Decode(DecodeError::InvalidLen { declared: plain, available: m.len() as usize }))
                } else if remaining - plain == 0 {
                    Ok((after_file(v.0), None, Some(m)))
                } else {
                    Ok(((v.0, PhaseView::Chunks(header, (remaining - plain) as u64, chunk_size, false)), None, Some(m)))
                },
            }
        },
        PhaseView::Finished => Err(CollectFailure::InvalidChunkSize),
    }
}

/// The views of an optional string.
pub open spec fn opt_string(o: Option<String>) -> Option<Seq<char>> {
    match o {
        Some(s) => Some(s@),
        None => None,
    }
}

/// The views of optional bytes.
pub open spec fn opt_bytes(o: Option<Vec<u8>>) -> Option<Seq<u8>> {
    match o {
        Some(b) => Some(b@),
        None => None,
    }
}

/// The size of an encrypted chunk of `plain` plaintext bytes.
fn encrypted_len(plain: usize) -> (r: usize)
    requires
        plain + AUTH_TAG_SIZE + NONCE_SIZE <= usize::MAX,
    ensures
        r == plain + AUTH_TAG_SIZE + NONCE_SIZE,
{
    plain + AUTH_TAG_SIZE + NONCE_SIZE
}

impl FileCollector {
    /// The receiver of `file_count` files.
    pub fn new(file_count: usize) -> (r: Self)
        ensures
            r@ == (if file_count == 0 { (0usize, PhaseView::Finished) } else { (file_count, PhaseView::Prefix) }),
            collector_wf(r@),
    {
        if file_count == 0 {
            FileCollector { files_left: 0, phase: CollectPhase::Finished }
        } else {
            FileCollector { files_left: file_count, phase: CollectPhase::Prefix }
        }
    }

    /// How many bytes to read first: `None` where no file is to come.
    pub fn first_read(&self) -> (r: Option<usize>)
        requires
            collector_wf(self@),
        ensures
            r matches Some(n) ==> expected_read(self@) == Some(n as nat),
            r is None ==> expected_read(self@) is None,
    {
        self.expected()
    }

    fn expected(&self) -> (r: Option<usize>)
        requires
            collector_wf(self@),
        ensures
            r matches Some(n) ==> expected_read(self@) == Some(n as nat),
            r is None ==> expected_read(self@) is None,
    {
        match &self.phase {
            CollectPhase::Prefix => Some(HEADER_PREFIX_SIZE),
            CollectPhase::Name { prefix } => Some(read_u32_be(prefix.as_slice(), 1) as usize),
            CollectPhase::Metadata { .. } => Some(FILE_METADATA_SIZE),
            CollectPhase::Chunks { remaining, chunk_size, .. } => {
                let plain = if *remaining < *chunk_size as u64 { *remaining as usize } else { *chunk_size };
                Some(encrypted_len(plain))
            },
            CollectPhase::Finished => None,
        }
    }

    /// Completes the current file.
    fn finish_file(&mut self)
        requires
            old(self)@.0 > 0,
        ensures
            final(self)@ == after_file(old(self)@.0),
            collector_wf(final(self)@),
    {
        if self.files_left <= 1 {
            self.files_left = 0;
            self.phase = CollectPhase::Finished;
        } else {
            self.files_left = self.files_left - 1;
            self.phase = CollectPhase::Prefix;
        }
    }

    /// Takes the `data` that was read as asked, and says what to do next.
    pub fn on_bytes(&mut self, data: &[u8], cipher: &Cipher) -> (r: Result<CollectStep, TransferError>)
        requires
            collector_wf(old(self)@),
            expected_read(old(self)@) == Some(data@.len()),
        ensures
            r matches Ok(step) ==> collect_next(old(self)@, data@, cipher.spec_key()) == Ok::<_, CollectFailure>(
                (final(self)@, opt_string(step.create), opt_bytes(step.write)),
            ),
            r matches Ok(step) ==> collector_wf(final(self)@),
            r matches Ok(step) ==> (step.next_read matches Some(n) ==> expected_read(final(self)@) == Some(n as nat)),
            r matches Ok(step) ==> (step.next_read is None ==> expected_read(final(self)@) is None),
            r matches Err(e) ==> collect_next(old(self)@, data@, cipher.spec_key()) == Err::<((usize, PhaseView), Option<Seq<char>>, Option<Seq<u8>>), CollectFailure>(failure_of(e)),
            r matches Err(e) ==> !(e is Io),
    {
        let mut phase = CollectPhase::Finished;
        std::mem::swap(&mut phase, &mut self.phase);
        match phase {
            CollectPhase::Prefix => {
                if data[0] != IndicationBytes::File.byte() {
                    return Err(TransferError::Decode(DecodeError::UnexpectedIndicationType { expected: IndicationBytes::File, actual: data[0] }));
                }
                self.phase = CollectPhase::Name { prefix: vstd::slice::slice_to_vec(data) };
                let next = self.expected();
                Ok(CollectStep { create: None, write: None, next_read: next })
            },
            CollectPhase::Name { prefix } => {
                let name = match utf8_to_string(data) {
                    Ok(name) => name,
                    Err(_) => return Err(TransferError::Decode(DecodeError::InvalidUtf8)),
                };
                match validate_file_name(name.as_str()) {
                    Ok(()) => {},
                    Err(e) => return Err(TransferError::Decode(e)),
                }
                let mut header = prefix;
                append_bytes(&mut header, data);
                self.phase = CollectPhase::Metadata { header, name };
                Ok(CollectStep { create: None, write: None, next_read: Some(FILE_METADATA_SIZE) })
            },
            CollectPhase::Metadata { header, name } => {
                let (file_size, chunk_size) = match decode_file_metadata(data) {
                    Ok(v) => v,
                    Err(e) => return Err(e),
                };
                if chunk_size > usize::MAX - AUTH_TAG_SIZE - NONCE_SIZE {
                    return Err(TransferError::InvalidChunkSize);
                }
                if file_size == 0 {
                    self.finish_file();
                    let next = self.expected();
                    return Ok(CollectStep { create: Some(name), write: None, next_read: next });
                }
                let mut header = header;
                append_bytes(&mut header, data);
                self.phase = CollectPhase::Chunks { header, remaining: file_size, chunk_size, first: true };
                let next = self.expected();
                Ok(CollectStep { create: Some(name), write: None, next_read: next })
            },
            CollectPhase::Chunks { header, remaining, chunk_size, first } => {
                let plain = if remaining < chunk_size as u64 { remaining as usize } else { chunk_size };
                let decrypted = if first {
                    cipher.decrypt(data, header.as_slice())
                } else {
                    let empty: [u8; 0] = [];
                    assert(empty@ =~= Seq::<u8>::empty());
                    cipher.decrypt(data, &empty)
                };
                let decrypted = match decrypted {
                    Ok(d) => d,
                    Err(e) => return Err(e),
                };
                if decrypted.len() != plain {
                    return Err(TransferError::Decode(DecodeError::InvalidLen { declared: plain, available: decrypted.len() }));
                }
                let left = remaining - plain as u64;
                if left == 0 {
                    self.finish_file();
                } else {
                    self.phase = CollectPhase::Chunks { header, remaining: left, chunk_size, first: false };
                }
                let next = self.expected();
                Ok(CollectStep { create: None, write: Some(decrypted), next_read: next })
            },
            CollectPhase::Finished => Err(TransferError::InvalidChunkSize),
        }
    }
}

/// Whether `sealed` are the chunks in which a sender hands over `contents`: it
/// cuts them into plaintext pieces of `chunk_size` bytes (the last one shorter),
/// and each chunk is a piece sealed under `key` with its tag and nonce, the
/// first with associated data `aad` and the others without.
pub open spec fn sealed_file(key: Seq<u8>, sealed: Seq<Seq<u8>>, contents: Seq<u8>, chunk_size: nat, aad: Seq<u8>) -> bool
    decreases contents.len(),
{
    if contents.len() == 0 {
        sealed.len() == 0
    } else if chunk_size == 0 {
        false
    } else {
        let plain = if contents.len() < chunk_size { contents.len() } else { chunk_size };
        &&& sealed.len() > 0
        &&& sealed[0].len() == plain + AUTH_TAG_SIZE + NONCE_SIZE
        &&& chunk_open(key, sealed[0], aad) == ChunkOpening::Opened(contents.subrange(0, plain as int))
        &&& sealed_file(key, sealed.drop_first(), contents.subrange(plain as int, contents.len() as int), chunk_size, Seq::empty())
    }
}

/// Whether `sealed` are the chunks in which a sender handed over `contents` in
/// full-size pieces only: each piece is `chunk_size` bytes, sealed as in
/// [`sealed_file`]. This is where a sender stands while the file is not done.
pub open spec fn sealed_full(key: Seq<u8>, sealed: Seq<Seq<u8>>, contents: Seq<u8>, chunk_size: nat, aad: Seq<u8>) -> bool
    decreases contents.len(),
{
    if contents.len() == 0 {
        sealed.len() == 0
    } else if chunk_size == 0 || contents.len() < chunk_size {
        false
    } else {
        &&& sealed.len() > 0
        &&& sealed[0].len() == chunk_size + AUTH_TAG_SIZE + NONCE_SIZE
        &&& chunk_open(key, sealed[0], aad) == ChunkOpening::Opened(contents.subrange(0, chunk_size as int))
        &&& sealed_full(key, sealed.drop_first(), contents.subrange(chunk_size as int, contents.len() as int), chunk_size, Seq::empty())
    }
}

/// Sealing one more piece after full-size pieces: the chunks then hand over the
/// longer contents, and while the new piece is full-size they still are full.
proof fn lemma_seal_one_more(
    key: Seq<u8>,
    sealed: Seq<Seq<u8>>,
    contents: Seq<u8>,
    chunk_size: nat,
    aad: Seq<u8>,
    chunk: Seq<u8>,
    piece: Seq<u8>,
)
    requires
        chunk_size > 0,
        sealed_full(key, sealed, contents, chunk_size, aad),
        0 < piece.len() <= chunk_size,
        chunk.len() == piece.len() + AUTH_TAG_SIZE + NONCE_SIZE,
        chunk_open(key, chunk, if contents.len() == 0 { aad } else { Seq::empty() }) == ChunkOpening::Opened(piece),
    ensures
        sealed_file(key, sealed.push(chunk), contents + piece, chunk_size, aad),
        piece.len() == chunk_size ==> sealed_full(key, sealed.push(chunk), contents + piece, chunk_size, aad),
    decreases contents.len(),
{
    let all = contents + piece;
    if contents.len() == 0 {
        assert(sealed.len() == 0);
        assert(all =~= piece);
        assert(sealed.push(chunk)[0] == chunk);
        assert(piece.subrange(0, piece.len() as int) =~= piece);
        assert(sealed.push(chunk).drop_first() =~= Seq::<Seq<u8>>::empty());
        assert(all.subrange(piece.len() as int, all.len() as int) =~= Seq::<u8>::empty());
        assert(sealed_file(key, Seq::<Seq<u8>>::empty(), Seq::<u8>::empty(), chunk_size, Seq::empty()));
        assert(sealed_full(key, Seq::<Seq<u8>>::empty(), Seq::<u8>::empty(), chunk_size, Seq::empty()));
    } else {
        let rest = contents.subrange(chunk_size as int, contents.len() as int);
        lemma_seal_one_more(key, sealed.drop_first(), rest, chunk_size, Seq::empty(), chunk, piece);
        assert(sealed.push(chunk)[0] == sealed[0]);
        assert(sealed.push(chunk).drop_first() =~= sealed.drop_first().push(chunk));
        assert(all.subrange(0, chunk_size as int) =~= contents.subrange(0, chunk_size as int));
        assert(all.subrange(chunk_size as int, all.len() as int) =~= rest + piece);
    }
}

/// Seals the `contents` of the file that `header` describes, chunk by chunk, as
/// the sender sends them: the chunks that [`FileSender`] yields from
/// [`FileSender::new`], in order. They hand over exactly `contents` in pieces of
/// the header's chunk size less a nonce, the first with the serialized header as
/// associated data; an error where that chunk size leaves no room for a byte.
pub fn seal_file(header: &FileHeader, contents: &[u8], cipher: &Cipher) -> (r: Result<Vec<Vec<u8>>, TransferError>)
    requires
        contents@.len() == header.spec_file_size(),
    ensures
        r is Ok <==> header.spec_chunk_size() > NONCE_SIZE,
        r matches Ok(sealed) ==> sealed_file(
            cipher.spec_key(),
            sealed@.map_values(|c: Vec<u8>| c@),
            contents@,
            (header.spec_chunk_size() - NONCE_SIZE) as nat,
            header.spec_serialize(),
        ),
        r matches Err(e) ==> e is InvalidChunkSize,
{
    let mut sender = match FileSender::new(header) {
        Ok(s) => s,
        Err(e) => return Err(e),
    };
    let ghost key = cipher.spec_key();
    let ghost hw = header.spec_serialize();
    let ghost p = (header.spec_chunk_size() - NONCE_SIZE) as nat;
    let total = contents.len();
    let mut out: Vec<Vec<u8>> = Vec::new();
    let mut at: usize = 0;
    assert(contents@.subrange(0, 0) =~= Seq::<u8>::empty());
    assert(out@.map_values(|c: Vec<u8>| c@) =~= Seq::<Seq<u8>>::empty());
    while sender.next_read() > 0
        invariant
            contents@.len() == header.spec_file_size(),
            total == contents@.len(),
            header.spec_chunk_size() > NONCE_SIZE,
            p == (header.spec_chunk_size() - NONCE_SIZE) as nat,
            p > 0,
            sender@.1 == p,
            sender@.0 + at == contents@.len(),
            sender@.2 == (at == 0),
            key == cipher.spec_key(),
            hw == header.spec_serialize(),
            sealed_file(key, out@.map_values(|c: Vec<u8>| c@), contents@.subrange(0, at as int), p, hw),
            sender@.0 > 0 ==> sealed_full(key, out@.map_values(|c: Vec<u8>| c@), contents@.subrange(0, at as int), p, hw),
        decreases sender@.0,
    {
        let n = sender.next_read();
        assert(n <= sender@.0 && n <= p && n > 0) by {
            if (sender@.0 as int) < (sender@.1 as int) {
                assert(sender@.0 as usize == sender@.0);
            }
        }
        let chunk = slice_subrange(contents, at, at + n);
        let ghost before = out@.map_values(|c: Vec<u8>| c@);
        let sealed = match sender.seal(chunk, header, cipher) {
            Ok(c) => c,
            Err(e) => {
                assert(false);
                return Err(e);
            },
        };
        proof {
            lemma_seal_one_more(key, before, contents@.subrange(0, at as int), p, hw, sealed@, chunk@);
            assert(contents@.subrange(0, at as int) + chunk@ =~= contents@.subrange(0, at + n));
        }
        out.push(sealed);
        at = at + n;
        proof {
            assert(out@.map_values(|c: Vec<u8>| c@) =~= before.push(sealed@));
        }
    }
    assert(contents@.subrange(0, at as int) =~= contents@);
    Ok(out)
}

/// What the receiver in state `v` ends with when it reads the chunks `sealed` in
/// turn, each exactly as long as it asks for: its state and the bytes it wrote;
/// `None` where a chunk is not what it asks for or a step fails.
pub open spec fn run_chunks(v: (usize, PhaseView), sealed: Seq<Seq<u8>>, key: Seq<u8>) -> Option<((usize, PhaseView), Seq<u8>)>
    decreases sealed.len(),
{
    if sealed.len() == 0 {
        Some((v, Seq::empty()))
    } else if expected_read(v) != Some(sealed[0].len()) {
        None
    } else {
        match collect_next(v, sealed[0], key) {
            Ok((next, None, Some(written))) => match run_chunks(next, sealed.drop_first(), key) {
                Some((last, rest)) => Some((last, written + rest)),
                None => None,
            },
            _ => None,
        }
    }
}

/// The chunks of the rest of a file reach a receiver that waits for them: it
/// writes exactly the rest of the file and completes it.
proof fn lemma_chunks_arrive(
    files_left: usize,
    header: Seq<u8>,
    remaining: u64,
    chunk_size: usize,
    first: bool,
    key: Seq<u8>,
    sealed: Seq<Seq<u8>>,
    contents: Seq<u8>,
)
    requires
        files_left > 0,
        remaining > 0,
        chunk_size > 0,
        chunk_size + AUTH_TAG_SIZE + NONCE_SIZE <= usize::MAX,
        contents.len() == remaining,
        sealed_file(key, sealed, contents, chunk_size as nat, if first { header } else { Seq::empty() }),
    ensures
        run_chunks((files_left, PhaseView::Chunks(header, remaining, chunk_size, first)), sealed, key)
            == Some((after_file(files_left), contents)),
    decreases remaining,
{
    let v = (files_left, PhaseView::Chunks(header, remaining, chunk_size, first));
    let plain = chunk_len(remaining, chunk_size);
    let piece = contents.subrange(0, plain as int);
    let rest = contents.subrange(plain as int, contents.len() as int);
    let aad = if first { header } else { Seq::empty() };
    assert(contents.len() > 0);
    assert(sealed.len() > 0 && sealed[0].len() == plain + AUTH_TAG_SIZE + NONCE_SIZE);
    assert(chunk_open(key, sealed[0], aad) == ChunkOpening::Opened(piece));
    assert(expected_read(v) == Some(sealed[0].len()));
    if remaining - plain == 0 {
        assert(rest.len() == 0);
        assert(sealed_file(key, sealed.drop_first(), rest, chunk_size as nat, Seq::empty()));
        assert(sealed.drop_first().len() == 0);
        assert(collect_next(v, sealed[0], key) == Ok::<_, CollectFailure>((after_file(files_left), None::<Seq<char>>, Some(piece))));
        assert(run_chunks(after_file(files_left), sealed.drop_first(), key) == Some((after_file(files_left), Seq::<u8>::empty())));
        assert(piece + Seq::<u8>::empty() =~= contents);
    } else {
        let next = (files_left, PhaseView::Chunks(header, (remaining - plain) as u64, chunk_size, false));
        assert(collect_next(v, sealed[0], key) == Ok::<_, CollectFailure>((next, None::<Seq<char>>, Some(piece))));
        lemma_chunks_arrive(files_left, header, (remaining - plain) as u64, chunk_size, false, key, sealed.drop_first(), rest);
        assert(piece + rest =~= contents);
    }
}

/// Every file travels intact: a receiver that waits for a file and reads, in the
/// parts it asks for, the serialized header of a file of `size` bytes with a
/// plain name and transmitted chunk size `chunk_size`, and then the chunks in
/// which the sender sealed the file's `contents` (in plaintext pieces of the
/// chunk size less a nonce, the first with the header as associated data),
/// creates the file of that name, writes exactly `contents`, and moves on to
/// the next file.
pub proof fn lemma_file_arrives(
    files_left: usize,
    name: Seq<char>,
    size: u64,
    chunk_size: u32,
    key: Seq<u8>,
    contents: Seq<u8>,
    sealed: Seq<Seq<u8>>,
)
    requires
        files_left > 0,
        is_plain_file_name(name),
        encode_utf8(name).len() <= u32::MAX,
        chunk_size > NONCE_SIZE,
        chunk_size - NONCE_SIZE + AUTH_TAG_SIZE + NONCE_SIZE <= usize::MAX,
        contents.len() == size,
        sealed_file(
            key,
            sealed,
            contents,
            (chunk_size - NONCE_SIZE) as nat,
            crate::file_collection::tree_walking::file_header_wire(name, size, chunk_size),
        ),
    ensures
        ({
            let wire = crate::file_collection::tree_walking::file_header_wire(name, size, chunk_size);
            let l = encode_utf8(name).len() as int;
            let s0 = (files_left, PhaseView::Prefix);
            let prefix = wire.subrange(0, 5);
            let name_bytes = wire.subrange(5, 5 + l);
            let metadata = wire.subrange(5 + l, wire.len() as int);
            &&& expected_read(s0) == Some(prefix.len())
            &&& collect_next(s0, prefix, key) matches Ok((s1, None, None))
            &&& expected_read(s1) == Some(name_bytes.len())
            &&& collect_next(s1, name_bytes, key) matches Ok((s2, None, None))
            &&& expected_read(s2) == Some(metadata.len())
            &&& collect_next(s2, metadata, key) matches Ok((s3, Some(created), None))
            &&& created == name
            &&& run_chunks(s3, sealed, key) == Some((after_file(files_left), contents))
        }),
{
    let wire = crate::file_collection::tree_walking::file_header_wire(name, size, chunk_size);
    let b = encode_utf8(name);
    let l = b.len() as int;
    let prefix = wire.subrange(0, 5);
    let name_bytes = wire.subrange(5, 5 + l);
    let metadata = wire.subrange(5 + l, wire.len() as int);
    crate::bytes::lemma_be32_roundtrip(b.len() as u32);
    crate::bytes::lemma_be64_roundtrip(size);
    crate::bytes::lemma_be32_roundtrip(chunk_size);
    assert(prefix.subrange(1, 5) =~= crate::bytes::be32(b.len() as u32));
    assert(name_bytes =~= b);
    vstd::utf8::encode_utf8_valid_utf8(name);
    vstd::utf8::encode_utf8_decode_utf8(name);
    assert(metadata.subrange(0, 8) =~= crate::bytes::be64(size));
    assert(metadata.subrange(8, 12) =~= crate::bytes::be32(chunk_size));
    assert(prefix + name_bytes + metadata =~= wire);
    let p = (chunk_size - NONCE_SIZE) as usize;
    assert(metadata_decode(metadata) == Ok::<(u64, usize), CollectFailure>((size, p)));
    if size == 0 {
        assert(sealed.len() == 0);
        assert(contents =~= Seq::<u8>::empty());
    } else {
        lemma_chunks_arrive(files_left, wire, size, p, true, key, sealed, contents);
    }
}

/// What the receiver in state `v` ends with when it reads `reads` in turn, each
/// exactly as long as it asks for: its state, the bytes it wrote before creating
/// a file, the names of the files it created in order, and what it wrote into
/// each; `None` where a read is not what it asks for or a step fails.
pub open spec fn collect_run(v: (usize, PhaseView), reads: Seq<Seq<u8>>, key: Seq<u8>) -> Option<
    ((usize, PhaseView), Seq<u8>, Seq<Seq<char>>, Seq<Seq<u8>>),
>
    decreases reads.len(),
{
    if reads.len() == 0 {
        Some((v, Seq::empty(), Seq::empty(), Seq::empty()))
    } else if expected_read(v) != Some(reads[0].len()) {
        None
    } else {
        match collect_next(v, reads[0], key) {
            Err(_) => None,
            Ok((next, created, written)) => match collect_run(next, reads.drop_first(), key) {
                None => None,
                Some((last, before, names, files)) => {
                    let w = match written {
                        Some(b) => b,
                        None => Seq::empty(),
                    };
                    match created {
                        Some(name) => Some((last, Seq::empty(), seq![name] + names, seq![w + before] + files)),
                        None => Some((last, w + before, names, files)),
                    }
                },
            },
        }
    }
}

/// A file as the sender hands it over: its name, size, transmitted chunk size,
/// contents, and the chunks it sealed.
pub type SentFile = (Seq<char>, u64, u32, Seq<u8>, Seq<Seq<u8>>);

/// Whether `f` is a file that the sender can hand over under `key`: a plain name,
/// a chunk size with room for a byte, and chunks that seal its contents with its
/// header as associated data.
pub open spec fn sent_file_ok(f: SentFile, key: Seq<u8>) -> bool {
    &&& is_plain_file_name(f.0)
    &&& encode_utf8(f.0).len() <= u32::MAX
    &&& f.2 > NONCE_SIZE
    &&& f.2 - NONCE_SIZE + AUTH_TAG_SIZE + NONCE_SIZE <= usize::MAX
    &&& f.3.len() == f.1
    &&& sealed_file(key, f.4, f.3, (f.2 - NONCE_SIZE) as nat, crate::file_collection::tree_walking::file_header_wire(f.0, f.1, f.2))
}

/// The reads in which the receiver takes in the file `f`: the three parts of
/// its header, then its chunks.
pub open spec fn file_reads(f: SentFile) -> Seq<Seq<u8>> {
    let wire = crate::file_collection::tree_walking::file_header_wire(f.0, f.1, f.2);
    let l = encode_utf8(f.0).len() as int;
    seq![wire.subrange(0, 5), wire.subrange(5, 5 + l), wire.subrange(5 + l, wire.len() as int)] + f.4
}

/// The reads of the files `files`, one after the other.
pub open spec fn stream_reads(files: Seq<SentFile>) -> Seq<Seq<u8>>
    decreases files.len(),
{
    if files.len() == 0 {
        Seq::empty()
    } else {
        file_reads(files[0]) + stream_reads(files.drop_first())
    }
}

proof fn lemma_collect_run_chunks(v: (usize, PhaseView), sealed: Seq<Seq<u8>>, rest: Seq<Seq<u8>>, key: Seq<u8>)
    requires
        run_chunks(v, sealed, key) is Some,
    ensures
        ({
            let (v2, w) = run_chunks(v, sealed, key).unwrap();
            collect_run(v, sealed + rest, key) == match collect_run(v2, rest, key) {
                Some((last, before, names, files)) => Some((last, w + before, names, files)),
                None => None,
            }
        }),
    decreases sealed.len(),
{
    if sealed.len() == 0 {
        assert(sealed + rest =~= rest);
        match collect_run(v, rest, key) {
            Some((last, before, names, files)) => {
                assert(Seq::<u8>::empty() + before =~= before);
            },
            None => {},
        }
    } else {
        let next = collect_next(v, sealed[0], key)->Ok_0.0;
        assert((sealed + rest)[0] == sealed[0]);
        assert((sealed + rest).drop_first() =~= sealed.drop_first() + rest);
        lemma_collect_run_chunks(next, sealed.drop_first(), rest, key);
        let m = collect_next(v, sealed[0], key)->Ok_0.2->Some_0;
        let (v2, w) = run_chunks(v, sealed, key).unwrap();
        let (v3, w3) = run_chunks(next, sealed.drop_first(), key).unwrap();
        assert(w == m + w3);
        match collect_run(v2, rest, key) {
            Some((last, before, names, files)) => {
                assert(m + (w3 + before) =~= (m + w3) + before);
            },
            None => {},
        }
    }
}

/// One file of a stream arrives intact and the receiver goes on with the rest.
proof fn lemma_file_then_rest(files_left: usize, f: SentFile, rest: Seq<Seq<u8>>, key: Seq<u8>)
    requires
        files_left > 0,
        sent_file_ok(f, key),
    ensures
        collect_run((files_left, PhaseView::Prefix), file_reads(f) + rest, key) == match collect_run(after_file(files_left), rest, key) {
            Some((last, before, names, files)) => Some((last, Seq::<u8>::empty(), seq![f.0] + names, seq![f.3 + before] + files)),
            None => None,
        },
{
    lemma_file_arrives(files_left, f.0, f.1, f.2, key, f.3, f.4);
    let wire = crate::file_collection::tree_walking::file_header_wire(f.0, f.1, f.2);
    let l = encode_utf8(f.0).len() as int;
    let prefix = wire.subrange(0, 5);
    let name_bytes = wire.subrange(5, 5 + l);
    let metadata = wire.subrange(5 + l, wire.len() as int);
    let s0 = (files_left, PhaseView::Prefix);
    let s1 = collect_next(s0, prefix, key)->Ok_0.0;
    let s2 = collect_next(s1, name_bytes, key)->Ok_0.0;
    let s3 = collect_next(s2, metadata, key)->Ok_0.0;
    let all = file_reads(f) + rest;
    let after_header = f.4 + rest;
    assert(all[0] == prefix);
    assert(all.drop_first()[0] == name_bytes);
    assert(all.drop_first().drop_first()[0] == metadata);
    assert(all.drop_first().drop_first().drop_first() =~= after_header);
    lemma_collect_run_chunks(s3, f.4, rest, key);
    let d1 = all.drop_first();
    let d2 = d1.drop_first();
    let e = Seq::<u8>::empty();
    match collect_run(after_file(files_left), rest, key) {
        Some((last, before, names, files)) => {
            assert(collect_run(s3, d2.drop_first(), key) == Some((last, f.3 + before, names, files)));
            assert(collect_run(s2, d2, key) == Some((last, e, seq![f.0] + names, seq![e + (f.3 + before)] + files)));
            assert(e + (f.3 + before) =~= f.3 + before);
            assert(collect_run(s1, d1, key) == Some((last, e + e, seq![f.0] + names, seq![f.3 + before] + files)));
            assert(e + e =~= e);
            assert(collect_run(s0, all, key) == Some((last, e + e, seq![f.0] + names, seq![f.3 + before] + files)));
        },
        None => {
            assert(collect_run(s3, d2.drop_first(), key) is None);
            assert(collect_run(s2, d2, key) is None);
            assert(collect_run(s1, d1, key) is None);
        },
    }
}

/// Every file of a transfer arrives intact: a receiver waiting for
/// `files.len()` files that reads, in the parts it asks for, the headers and
/// chunks of `files` one after the other, creates each file in turn under its
/// name, writes exactly its contents, and ends finished.
pub proof fn lemma_files_arrive(files: Seq<SentFile>, key: Seq<u8>)
    requires
        0 < files.len() <= usize::MAX,
        forall|i: int| 0 <= i < files.len() ==> sent_file_ok(#[trigger] files[i], key),
    ensures
        collect_run((files.len() as usize, PhaseView::Prefix), stream_reads(files), key) == Some((
            (0usize, PhaseView::Finished),
            Seq::<u8>::empty(),
            files.map_values(|f: SentFile| f.0),
            files.map_values(|f: SentFile| f.3),
        )),
    decreases files.len(),
{
    let k = files.len() as usize;
    let rest = files.drop_first();
    assert(sent_file_ok(files[0], key));
    lemma_file_then_rest(k, files[0], stream_reads(rest), key);
    if files.len() == 1 {
        assert(stream_reads(rest) =~= Seq::<Seq<u8>>::empty());
        assert(files[0].3 + Seq::<u8>::empty() =~= files[0].3);
        assert(files.map_values(|f: SentFile| f.0) =~= seq![files[0].0]);
        assert(files.map_values(|f: SentFile| f.3) =~= seq![files[0].3]);
    } else {
        assert forall|i: int| 0 <= i < rest.len() implies sent_file_ok(#[trigger] rest[i], key) by {
            assert(rest[i] == files[i + 1]);
        }
        lemma_files_arrive(rest, key);
        assert(files[0].3 + Seq::<u8>::empty() =~= files[0].3);
        assert(files.map_values(|f: SentFile| f.0) =~= seq![files[0].0] + rest.map_values(|f: SentFile| f.0));
        assert(files.map_values(|f: SentFile| f.3) =~= seq![files[0].3] + rest.map_values(|f: SentFile| f.3));
    }
}

} // verus!
