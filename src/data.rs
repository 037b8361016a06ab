use std::marker::PhantomData;
use std::rc::Rc;
use vstd::layout::size_of;
use vstd::prelude::*;

verus! {

/// What a view holds: the whole buffer, the length of the header that precedes
/// the records, and the identity that a cache gave the buffer, if any.
pub ghost struct DataView {
    pub bytes: Seq<u8>,
    pub header_len: nat,
    pub id: Option<u64>,
}

/// A failure to decode a container.
#[derive(Debug)]
pub enum DecodeError {
    /// The path names no supported container type.
    UnsupportedType,
    /// The buffer is too short for the length field, or for the header it declares.
    MalformedHeader,
    /// The archive could not be opened or its first entry could not be read.
    Archive(zip::result::ZipError),
    /// The contents of a source that had to be decoded were not supplied.
    MissingContents,
}

#[verifier::external_type_specification]
#[verifier::external_body]
pub struct ExZipError(zip::result::ZipError);

/// The outcome of opening a zip archive and reading its first entry: the
/// decompressed bytes of that entry, or `None` where zip reports an error.
pub uninterp spec fn first_entry_result(archive: Seq<u8>) -> Option<Seq<u8>>;

/// Relies on zip's `ZipArchive::new`, `ZipArchive::by_index_decrypt` and the
/// `Read` impl of the entry it returns: the result depends on the archive's
/// bytes alone. The entry is asked for without a password, so that an entry
/// flagged for decryption comes back as an error instead of a panic.
#[verifier::external_body]
fn read_first_entry(archive: &[u8]) -> (r: Result<Vec<u8>, zip::result::ZipError>)
    ensures
        r is Ok <==> first_entry_result(archive@) is Some,
        r matches Ok(v) ==> first_entry_result(archive@) == Some(v@),
{
    let mut zip = zip::ZipArchive::new(std::io::Cursor::new(archive))?;
    let mut entry = match zip.by_index_decrypt(0, &[])? {
        Ok(entry) => entry,
        Err(_) => return Err(zip::result::ZipError::UnsupportedArchive(zip::result::ZipError::PASSWORD_REQUIRED)),
    };
    let mut out: Vec<u8> = Vec::new();
    std::io::Read::read_to_end(&mut entry, &mut out)?;
    Ok(out)
}

/// Offset of the little-endian 16-bit field that holds the length of the
/// textual header.
pub const HEADER_LEN_OFFSET: usize = 8;

/// Bytes that precede the textual header: the magic, the version and the length field.
pub const PREAMBLE_LEN: usize = 10;

/// Where the records of a container start, if the buffer holds the length
/// field and the whole header that it declares.
pub open spec fn container_header_len(b: Seq<u8>) -> Option<nat> {
    if b.len() < 10 {
        None
    } else {
        let h = 10 + b[8] + 256 * b[9];
        if h <= b.len() {
            Some(h as nat)
        } else {
            None
        }
    }
}

/// A random-access sequence of fixed-size records of type `D` over a shared,
/// immutable byte buffer, after a header. Clones share the buffer.
#[derive(Debug)]
pub struct Data<D> {
    buf: Rc<Vec<u8>>,
    header_len: usize,
    id: Option<u64>,
    marker: PhantomData<D>,
}

impl<D> View for Data<D> {
    type V = DataView;

    closed spec fn view(&self) -> DataView {
        DataView { bytes: self.buf@, header_len: self.header_len as nat, id: self.id }
    }
}

impl<D> Clone for Data<D> {
    /// Another handle on the same buffer.
    fn clone(&self) -> (r: Self)
        ensures
            r@ == self@,
    {
        self.share()
    }
}

impl<D> Data<D> {
    /// The header lies inside the buffer.
    pub open spec fn wf(&self) -> bool {
        self@.header_len <= self@.bytes.len()
    }

    /// The size of one record.
    pub open spec fn record_size() -> nat {
        size_of::<D>()
    }

    /// The number of whole records after the header.
    pub open spec fn spec_len(&self) -> nat {
        ((self@.bytes.len() - self@.header_len) as nat / Self::record_size()) as nat
    }

    /// The bytes of record `i`.
    pub open spec fn record(&self, i: int) -> Seq<u8> {
        let start = self@.header_len + i * Self::record_size();
        self@.bytes.subrange(start, start + Self::record_size())
    }

    /// The number of records.
    pub fn len(&self) -> (r: usize)
        requires
            self.wf(),
            Self::record_size() > 0,
        ensures
            r == self.spec_len(),
    {
        let size = core::mem::size_of::<D>();
        (self.buf.len() - self.header_len) / size
    }

    /// A view of no records, backed by no data.
    pub fn empty() -> (r: Self)
        ensures
            r.wf(),
            r@.bytes.len() == 0,
            r@.header_len == 0,
            r@.id is None,
    {
        Data { buf: Rc::new(Vec::new()), header_len: 0, id: None, marker: PhantomData }
    }

    /// The bytes of record `i`, without copying them.
    pub fn index(&self, i: usize) -> (r: &[u8])
        requires
            self.wf(),
            Self::record_size() > 0,
            i < self.spec_len(),
        ensures
            r@ == self.record(i as int),
    {
        let size = core::mem::size_of::<D>();
        let avail = self.buf.len() - self.header_len;
        proof {
            let n = avail as int / size as int;
            assert(i as int * size as int + size as int <= avail as int) by (nonlinear_arith)
                requires
                    i < n,
                    n == avail as int / size as int,
                    size > 0,
                    avail >= 0,
            ;
        }
        let start = self.header_len + i * size;
        vstd::slice::slice_subrange(self.buf.as_slice(), start, start + size)
    }

    /// The bytes of record `i`, or `None` where `i` is past the last record.
    pub fn get(&self, i: usize) -> (r: Option<&[u8]>)
        requires
            self.wf(),
            Self::record_size() > 0,
        ensures
            i < self.spec_len() ==> (r matches Some(b) && b@ == self.record(i as int)),
            i >= self.spec_len() ==> r is None,
    {
        if i < self.len() {
            Some(self.index(i))
        } else {
            None
        }
    }

    /// The identity that a cache gave the buffer, if any.
    pub(crate) fn id(&self) -> (r: Option<u64>)
        ensures
            r == self@.id,
    {
        self.id
    }

    /// Whether a cache gave the buffer the identity `id`.
    pub(crate) fn id_is(&self, id: u64) -> (r: bool)
        ensures
            r == (self@.id == Some(id)),
    {
        match self.id {
            Some(x) => x == id,
            None => false,
        }
    }

    /// Another handle on the same buffer.
    pub(crate) fn share(&self) -> (r: Self)
        ensures
            r@ == self@,
    {
        Data { buf: Rc::clone(&self.buf), header_len: self.header_len, id: self.id, marker: PhantomData }
    }

    /// The same handle, marked with the identity `id`.
    pub(crate) fn with_id(self, id: u64) -> (r: Self)
        ensures
            r@ == (DataView { id: Some(id), ..self@ }),
    {
        Data { id: Some(id), ..self }
    }

    /// A view over a flat container: the length field at offset 8 gives the size
    /// of the textual header, and the records follow it.
    pub fn from_container(buf: Vec<u8>) -> (r: Result<Self, DecodeError>)
        ensures
            r is Ok <==> container_header_len(buf@) is Some,
            r matches Ok(d) ==> d.wf() && d@ == (DataView {
                bytes: buf@,
                header_len: container_header_len(buf@)->Some_0,
                id: None,
            }),
            r matches Err(e) ==> e is MalformedHeader,
    {
        if buf.len() < PREAMBLE_LEN {
            return Err(DecodeError::MalformedHeader);
        }
        let h = PREAMBLE_LEN + buf[HEADER_LEN_OFFSET] as usize + 256 * buf[HEADER_LEN_OFFSET + 1] as usize;
        if h > buf.len() {
            return Err(DecodeError::MalformedHeader);
        }
        Ok(Data { buf: Rc::new(buf), header_len: h, id: None, marker: PhantomData })
    }

    /// A view over the flat container that is the first entry of a zip archive.
    pub fn from_archive(archive: &[u8]) -> (r: Result<Self, DecodeError>)
        ensures
            r is Ok <==> (first_entry_result(archive@) matches Some(b) && container_header_len(b) is Some),
            r matches Ok(d) ==> d.wf() && d@ == (DataView {
                bytes: first_entry_result(archive@)->Some_0,
                header_len: container_header_len(first_entry_result(archive@)->Some_0)->Some_0,
                id: None,
            }),
            r matches Err(e) ==> (e is Archive <==> first_entry_result(archive@) is None),
            r matches Err(e) ==> (e is Archive || e is MalformedHeader),
    {
        match read_first_entry(archive) {
            Ok(entry) => Self::from_container(entry),
            Err(e) => Err(DecodeError::Archive(e)),
        }
    }
}

} // verus!
