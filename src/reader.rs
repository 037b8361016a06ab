use crate::cache::{released, Cache, EntryView};
use crate::data::{container_header_len, first_entry_result, Data, DataView, DecodeError};
use std::marker::PhantomData;
use vstd::prelude::*;

verus! {

/// Why a reader handed out no view.
#[derive(Debug)]
pub enum Error {
    /// Every source was handed out.
    EndOfData,
    /// The current source could not be decoded.
    DataError(DecodeError),
}

/// The container type of a source, chosen by the suffix of its path.
#[derive(Clone, Copy, Debug, PartialEq, Eq)]
pub enum ContainerKind {
    /// A flat container (`.npy`).
    Flat,
    /// A zip archive whose first entry is a flat container (`.npz`).
    Archive,
}

pub open spec fn spec_ends_with(s: Seq<char>, p: Seq<char>) -> bool {
    p.len() <= s.len() && s.subrange(s.len() - p.len(), s.len() as int) == p
}

/// Relies on `str::ends_with`: whether `p` is a suffix of `s`.
#[verifier::external_body]
fn ends_with(s: &str, p: &str) -> (r: bool)
    ensures
        r == spec_ends_with(s@, p@),
{
    s.ends_with(p)
}

pub open spec fn kind_of_path(path: Seq<char>) -> Option<ContainerKind> {
    if spec_ends_with(path, ".npy"@) {
        Some(ContainerKind::Flat)
    } else if spec_ends_with(path, ".npz"@) {
        Some(ContainerKind::Archive)
    } else {
        None
    }
}

/// The container type that the suffix of `path` names, if any.
pub fn container_kind(path: &str) -> (r: Option<ContainerKind>)
    ensures
        r == kind_of_path(path@),
{
    if ends_with(path, ".npy") {
        Some(ContainerKind::Flat)
    } else if ends_with(path, ".npz") {
        Some(ContainerKind::Archive)
    } else {
        None
    }
}

/// The flat container that the contents of a source of the given kind hold,
/// `None` where an archive cannot be read.
pub open spec fn container_bytes(kind: ContainerKind, contents: Seq<u8>) -> Option<Seq<u8>> {
    match kind {
        ContainerKind::Flat => Some(contents),
        ContainerKind::Archive => first_entry_result(contents),
    }
}

/// The sources of a reader, and how many of them were handed out.
pub ghost struct ReaderView {
    pub sources: Seq<Seq<char>>,
    pub cursor: nat,
}

/// One call of `Reader::next`: from reader `r0` and cache `c0`, whose next
/// identity is `fresh`, with the supplied `contents` of the current source, to
/// reader `r1`, cache `c1` and result `res`.
pub open spec fn next_step<D>(
    r0: ReaderView,
    c0: Map<Seq<char>, EntryView>,
    fresh: u64,
    contents: Option<Seq<u8>>,
    r1: ReaderView,
    c1: Map<Seq<char>, EntryView>,
    res: Result<Data<D>, Error>,
) -> bool {
    if r0.cursor >= r0.sources.len() {
        res matches Err(Error::EndOfData) && r1 == r0 && c1 == c0
    } else {
        let key = r0.sources[r0.cursor as int];
        let advanced = ReaderView { cursor: r0.cursor + 1, ..r0 };
        if c0.contains_key(key) {
            &&& res matches Ok(d) && d@ == c0[key].data
            &&& r1 == advanced
            &&& c1 == c0.insert(key, EntryView { count: c0[key].count + 1, data: c0[key].data })
        } else {
            match kind_of_path(key) {
                None => res matches Err(Error::DataError(DecodeError::UnsupportedType)) && r1 == r0
                    && c1 == c0,
                Some(kind) => match contents {
                    None => res matches Err(Error::DataError(DecodeError::MissingContents)) && r1
                        == r0 && c1 == c0,
                    Some(b) => match container_bytes(kind, b) {
                        None => res matches Err(Error::DataError(DecodeError::Archive(_))) && r1
                            == r0 && c1 == c0,
                        Some(bytes) => match container_header_len(bytes) {
                            None => res matches Err(Error::DataError(DecodeError::MalformedHeader))
                                && r1 == r0 && c1 == c0,
                            Some(h) => {
                                &&& res matches Ok(d) && d@ == (DataView {
                                    bytes: bytes,
                                    header_len: h,
                                    id: Some(fresh),
                                })
                                &&& r1 == advanced
                                &&& c1 == c0.insert(key, EntryView { count: 1, data: res->Ok_0@ })
                            },
                        },
                    },
                },
            }
        }
    }
}

/// Hands out one view per source, in the order in which the sources were added,
/// decoding a source only where the shared cache lacks it.
#[derive(Debug)]
pub struct Reader<D> {
    file_list: Vec<String>,
    data_num: usize,
    marker: PhantomData<D>,
}

impl<D> View for Reader<D> {
    type V = ReaderView;

    closed spec fn view(&self) -> ReaderView {
        ReaderView { sources: self.file_list@.map_values(|s: String| s@), cursor: self.data_num as nat }
    }
}

impl<D> Reader<D> {
    /// The cursor has not passed the last source.
    pub open spec fn wf(&self) -> bool {
        self@.cursor <= self@.sources.len()
    }

    /// A reader with no source.
    pub fn new() -> (r: Self)
        ensures
            r.wf(),
            r@.sources == Seq::<Seq<char>>::empty(),
            r@.cursor == 0,
    {
        Reader { file_list: Vec::new(), data_num: 0, marker: PhantomData }
    }

    /// Appends a source.
    pub fn add_file(&mut self, filepath: String)
        requires
            old(self).wf(),
        ensures
            final(self).wf(),
            final(self)@ == (ReaderView {
                sources: old(self)@.sources.push(filepath@),
                cursor: old(self)@.cursor,
            }),
    {
        self.file_list.push(filepath);
        assert(self@.sources =~= old(self)@.sources.push(filepath@));
    }

    /// Gives a view back to the cache that it came from.
    pub fn release(&self, cache: &mut Cache<D>, data: Data<D>)
        requires
            old(cache).wf(),
        ensures
            final(cache).wf(),
            final(cache).fresh_id() == old(cache).fresh_id(),
            released(old(cache)@, final(cache)@, data@.id),
    {
        cache.remove(data);
    }

    /// The path of the current source, `None` once every source was handed out.
    pub fn current_source(&self) -> (r: Option<&String>)
        requires
            self.wf(),
        ensures
            r is Some <==> self@.cursor < self@.sources.len(),
            r matches Some(p) ==> p@ == self@.sources[self@.cursor as int],
    {
        if self.data_num < self.file_list.len() {
            Some(&self.file_list[self.data_num])
        } else {
            None
        }
    }

    /// The path of the current source where the next call must be given its
    /// contents: it is not in the cache and its suffix names a container type.
    pub fn pending_source(&self, cache: &Cache<D>) -> (r: Option<String>)
        requires
            self.wf(),
            cache.wf(),
        ensures
            r is Some <==> self@.cursor < self@.sources.len() && !cache@.contains_key(
                self@.sources[self@.cursor as int],
            ) && kind_of_path(self@.sources[self@.cursor as int]) is Some,
            r matches Some(p) ==> p@ == self@.sources[self@.cursor as int],
    {
        if self.data_num >= self.file_list.len() {
            return None;
        }
        let path = &self.file_list[self.data_num];
        if cache.contains(path.as_str()) {
            return None;
        }
        match container_kind(path.as_str()) {
            Some(_) => Some(path.clone()),
            None => None,
        }
    }

    /// The view of the current source, then advances to the next one. Where the
    /// cache lacks the source, it is decoded from `contents` and stored first.
    pub fn next(&mut self, cache: &mut Cache<D>, contents: Option<Vec<u8>>) -> (r: Result<
        Data<D>,
        Error,
    >)
        requires
            old(self).wf(),
            old(cache).wf(),
            old(cache).fresh_id() < u64::MAX,
            old(self)@.cursor < old(self)@.sources.len() && old(cache)@.contains_key(
                old(self)@.sources[old(self)@.cursor as int],
            ) ==> old(cache)@[old(self)@.sources[old(self)@.cursor as int]].count < usize::MAX,
        ensures
            final(self).wf(),
            final(cache).wf(),
            final(cache).fresh_id() as int == (if r is Ok && !old(cache)@.contains_key(
                old(self)@.sources[old(self)@.cursor as int],
            ) {
                old(cache).fresh_id() + 1
            } else {
                old(cache).fresh_id() as int
            }),
            next_step(
                old(self)@,
                old(cache)@,
                old(cache).fresh_id(),
                match contents {
                    Some(b) => Some(b@),
                    None => None,
                },
                final(self)@,
                final(cache)@,
                r,
            ),
    {
        if self.data_num >= self.file_list.len() {
            return Err(Error::EndOfData);
        }
        let path = self.file_list[self.data_num].clone();
        let ghost c0 = cache@;
        if !cache.contains(path.as_str()) {
            let kind = match container_kind(path.as_str()) {
                Some(k) => k,
                None => {
                    return Err(Error::DataError(DecodeError::UnsupportedType));
                },
            };
            let b = match contents {
                Some(b) => b,
                None => {
                    return Err(Error::DataError(DecodeError::MissingContents));
                },
            };
            let decoded = match kind {
                ContainerKind::Flat => Data::from_container(b),
                ContainerKind::Archive => Data::from_archive(b.as_slice()),
            };
            let data = match decoded {
                Ok(d) => d,
                Err(e) => {
                    return Err(Error::DataError(e));
                },
            };
            cache.insert(path.clone(), data);
            let data = cache.get(path.as_str());
            self.data_num += 1;
            assert(cache@ =~= c0.insert(path@, EntryView { count: 1, data: data@ }));
            return Ok(data);
        }
        let data = cache.get(path.as_str());
        self.data_num += 1;
        Ok(data)
    }
}

proof fn lemma_successful_prefix<D>(
    rs: Seq<ReaderView>,
    cs: Seq<Map<Seq<char>, EntryView>>,
    fresh: Seq<u64>,
    contents: Seq<Option<Seq<u8>>>,
    res: Seq<Result<Data<D>, Error>>,
    n: int,
)
    requires
        rs.len() == res.len() + 1,
        cs.len() == res.len() + 1,
        fresh.len() == res.len(),
        contents.len() == res.len(),
        rs[0].cursor == 0,
        forall|i: int|
            0 <= i < res.len() ==> next_step(
                rs[i],
                cs[i],
                fresh[i],
                contents[i],
                rs[i + 1],
                cs[i + 1],
                #[trigger] res[i],
            ),
        forall|i: int| 0 <= i < res.len() ==> #[trigger] res[i] is Ok,
        0 <= n <= res.len(),
    ensures
        rs[n].cursor == n,
        rs[n].sources == rs[0].sources,
        n <= rs[0].sources.len(),
    decreases n,
{
    if n > 0 {
        lemma_successful_prefix(rs, cs, fresh, contents, res, n - 1);
        assert(res[n - 1] is Ok);
    }
}

/// A reader started at its first source whose calls all succeed hands out one
/// view per source and advances one source per call; once every source was
/// handed out, the next call reports the end of data.
pub proof fn law_one_view_per_source<D>(
    rs: Seq<ReaderView>,
    cs: Seq<Map<Seq<char>, EntryView>>,
    fresh: Seq<u64>,
    contents: Seq<Option<Seq<u8>>>,
    res: Seq<Result<Data<D>, Error>>,
)
    requires
        rs.len() == res.len() + 1,
        cs.len() == res.len() + 1,
        fresh.len() == res.len(),
        contents.len() == res.len(),
        rs[0].cursor == 0,
        forall|i: int|
            0 <= i < res.len() ==> next_step(
                rs[i],
                cs[i],
                fresh[i],
                contents[i],
                rs[i + 1],
                cs[i + 1],
                #[trigger] res[i],
            ),
        forall|i: int| 0 <= i < res.len() ==> #[trigger] res[i] is Ok,
    ensures
        res.len() <= rs[0].sources.len(),
        rs.last().cursor == res.len(),
        rs.last().sources == rs[0].sources,
        res.len() == rs[0].sources.len() ==> forall|
            f: u64,
            b: Option<Seq<u8>>,
            r1: ReaderView,
            c1: Map<Seq<char>, EntryView>,
            out: Result<Data<D>, Error>,
        |
            #![trigger next_step(rs.last(), cs.last(), f, b, r1, c1, out)]
            next_step(rs.last(), cs.last(), f, b, r1, c1, out) ==> out matches Err(Error::EndOfData),
{
    lemma_successful_prefix(rs, cs, fresh, contents, res, res.len() as int);
}

/// Two readers that share a cache lacking their current source decode it once:
/// the first call stores the buffer, the second finds it stored and hands out
/// the same buffer, and the cache then holds that one source with two live views.
pub proof fn law_shared_source_decoded_once<D>(
    ra0: ReaderView,
    ra1: ReaderView,
    rb0: ReaderView,
    rb1: ReaderView,
    c0: Map<Seq<char>, EntryView>,
    c1: Map<Seq<char>, EntryView>,
    c2: Map<Seq<char>, EntryView>,
    f0: u64,
    f1: u64,
    b0: Option<Seq<u8>>,
    b1: Option<Seq<u8>>,
    o0: Result<Data<D>, Error>,
    o1: Result<Data<D>, Error>,
)
    requires
        c0 == Map::<Seq<char>, EntryView>::empty(),
        ra0.cursor < ra0.sources.len(),
        rb0.cursor < rb0.sources.len(),
        ra0.sources[ra0.cursor as int] == rb0.sources[rb0.cursor as int],
        next_step(ra0, c0, f0, b0, ra1, c1, o0),
        next_step(rb0, c1, f1, b1, rb1, c2, o1),
        o0 is Ok,
        o1 is Ok,
    ensures
        ({
            let k = ra0.sources[ra0.cursor as int];
            &&& c1.contains_key(k)
            &&& c2.dom() == set![k]
            &&& c2[k].count == 2
            &&& o0->Ok_0@ == o1->Ok_0@
        }),
{
    let k = ra0.sources[ra0.cursor as int];
    assert(c1 =~= map![k => EntryView { count: 1, data: o0->Ok_0@ }]);
    assert(c2.dom() =~= set![k]);
}

} // verus!
