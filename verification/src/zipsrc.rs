//! A zip/cbz source: the archive is parsed from bytes the caller read, its
//! image-named entries become the page sequence in natural order, and pages
//! are extracted by entry name. The zip crate does the parsing and
//! extraction behind trusted wrappers; everything around them is verified.
use vstd::prelude::*;
use vstd::relations::sorted_by;
use crate::natural::string_nat_le;
use crate::source::{build_page_list, spec_image_names, spec_is_image_name, spec_name_listed,
    OpenError};

verus! {

#[verifier::external_type_specification]
#[verifier::external_body]
#[verifier::reject_recursive_types(T)]
pub struct ExCursor<T>(std::io::Cursor<T>);

#[verifier::external_type_specification]
#[verifier::external_body]
#[verifier::reject_recursive_types(R)]
pub struct ExZipArchive<R>(zip::ZipArchive<R>);

/// The entry names of a parsed archive in central-directory order, in the
/// decoded form that `zip::ZipArchive::name_for_index` reports; `len` counts
/// them.
pub uninterp spec fn zip_entry_names(a: zip::ZipArchive<std::io::Cursor<Vec<u8>>>) -> Seq<
    Seq<char>,
>;

/// The bytes `zip::ZipArchive::by_name` extracts for a name, or nothing
/// when the lookup refuses the name or the entry does not decompress. An
/// in-memory archive makes this a function of the archive value and the
/// name alone.
pub uninterp spec fn zip_entry_data(
    a: zip::ZipArchive<std::io::Cursor<Vec<u8>>>,
    name: Seq<char>,
) -> Option<Seq<u8>>;

/// What parsing these bytes as a zip archive yields: the entry names when
/// the central directory parses, nothing when it does not. Parsing an
/// in-memory archive is a function of the bytes alone.
pub uninterp spec fn zip_names_of(bytes: Seq<u8>) -> Option<Seq<Seq<char>>>;

/// Relies on zip::ZipArchive::new over an in-memory cursor: parses the
/// central directory of the archive bytes, or fails on a malformed archive.
#[verifier::external_body]
fn zip_open(bytes: Vec<u8>) -> (r: Option<zip::ZipArchive<std::io::Cursor<Vec<u8>>>>)
    ensures
        r is Some == zip_names_of(bytes@) is Some,
        r matches Some(a) ==> Some(zip_entry_names(a)) == zip_names_of(bytes@),
{
    zip::ZipArchive::new(std::io::Cursor::new(bytes)).ok()
}

/// Relies on zip::ZipArchive::len: the number of entries of the archive.
#[verifier::external_body]
fn zip_len(a: &zip::ZipArchive<std::io::Cursor<Vec<u8>>>) -> (r: usize)
    ensures
        r == zip_entry_names(*a).len(),
{
    a.len()
}

/// Relies on zip::ZipArchive::name_for_index: the entry name at an index,
/// and nothing for an index past the end.
#[verifier::external_body]
fn zip_name_at(a: &zip::ZipArchive<std::io::Cursor<Vec<u8>>>, i: usize) -> (r: Option<String>)
    ensures
        r is Some == (i < zip_entry_names(*a).len()),
        r matches Some(s) ==> i < zip_entry_names(*a).len() && s@ == zip_entry_names(*a)[
            i as int],
{
    a.name_for_index(i).map(|s| s.to_string())
}

/// Relies on zip::ZipArchive::by_name and Read::read_to_end: decompresses
/// the named entry to bytes. Reading only moves the cursor, never the
/// central-directory metadata or the underlying bytes, so the entry names
/// and every entry's data are preserved.
#[verifier::external_body]
fn zip_read(a: &mut zip::ZipArchive<std::io::Cursor<Vec<u8>>>, name: &String) -> (r: Option<
    Vec<u8>,
>)
    ensures
        zip_entry_names(*final(a)) == zip_entry_names(*old(a)),
        forall|n: Seq<char>| #[trigger] zip_entry_data(*final(a), n) == zip_entry_data(
            *old(a), n),
        r is Some == zip_entry_data(*old(a), name@) is Some,
        r matches Some(b) ==> Some(b@) == zip_entry_data(*old(a), name@),
{
    let mut file = match a.by_name(name.as_str()) {
        Ok(f) => f,
        Err(_) => return None,
    };
    let mut buf = Vec::new();
    match std::io::Read::read_to_end(&mut file, &mut buf) {
        Ok(_) => Some(buf),
        Err(_) => None,
    }
}

proof fn lemma_filter_element_of<A>(s: Seq<A>, pred: spec_fn(A) -> bool, i: int)
    requires
        0 <= i < s.filter(pred).len(),
    ensures
        s.contains(s.filter(pred)[i]),
        pred(s.filter(pred)[i]),
    decreases s.len(),
{
    reveal(Seq::filter);
    if s.len() > 0 {
        let sub = s.drop_last().filter(pred);
        let x = s.filter(pred)[i];
        if pred(s.last()) && i == sub.len() {
            assert(x == s.last());
            assert(s[s.len() - 1] == x);
        } else {
            lemma_filter_element_of(s.drop_last(), pred, i);
            let j = choose|j: int| 0 <= j < s.drop_last().len() && s.drop_last()[j] == x;
            assert(s[j] == x);
        }
    }
}

/// An opened zip/cbz container: the parsed archive and its pages, the
/// image-named entries in natural order.
pub struct ZipSource {
    pub archive: zip::ZipArchive<std::io::Cursor<Vec<u8>>>,
    pub pages: Vec<String>,
}

impl ZipSource {
    /// The page sequence is non-empty, naturally ordered, unique, and lists
    /// only image-named entries of the archive.
    pub open spec fn wf(&self) -> bool {
        &&& self.pages@.len() > 0
        &&& sorted_by(self.pages@, |x: String, y: String| string_nat_le(x, y))
        &&& forall|p: int, q: int| 0 <= p < q < self.pages@.len()
            ==> #[trigger] self.pages@[p]@ != #[trigger] self.pages@[q]@
        &&& forall|i: int| 0 <= i < self.pages@.len() ==> spec_is_image_name(
            #[trigger] self.pages@[i]@) && zip_entry_names(self.archive).contains(
            self.pages@[i]@)
    }

    /// Turn a parsed archive into a source: its image-named entries, each
    /// listed once, in natural order, become the pages. Succeeds if and only
    /// if at least one entry carries an image extension; otherwise nothing
    /// was found to show.
    pub fn from_archive(archive: zip::ZipArchive<std::io::Cursor<Vec<u8>>>) -> (r: Result<
        ZipSource,
        OpenError,
    >)
        ensures
            match r {
                Ok(src) => {
                    &&& src.wf()
                    &&& zip_entry_names(src.archive) == zip_entry_names(archive)
                    &&& forall|i: int|
                        0 <= i < zip_entry_names(archive).len() && spec_is_image_name(
                            #[trigger] zip_entry_names(archive)[i]) ==> spec_name_listed(
                            src.pages@, zip_entry_names(archive)[i])
                },
                Err(e) => e == OpenError::NoImages && forall|i: int|
                    0 <= i < zip_entry_names(archive).len() ==> !spec_is_image_name(
                        #[trigger] zip_entry_names(archive)[i]),
            },
    {
        let ghost names = zip_entry_names(archive);
        let n = zip_len(&archive);
        let mut collected: Vec<String> = Vec::new();
        let mut i: usize = 0;
        while i < n
            invariant
                i <= n,
                n == names.len(),
                names == zip_entry_names(archive),
                collected@.len() == i,
                forall|k: int| 0 <= k < i ==> #[trigger] collected@[k]@ == names[k],
            decreases n - i,
        {
            match zip_name_at(&archive, i) {
                Some(s) => collected.push(s),
                None => {
                    // unreachable: the index is below the entry count
                    proof {
                        assert(false);
                    }
                },
            }
            i = i + 1;
        }
        let ghost coll = collected@;
        let ghost pred = |s: String| spec_is_image_name(s@);
        match build_page_list(collected) {
            Ok(pages) => {
                proof {
                    assert(spec_image_names(coll) == coll.filter(pred));
                    assert forall|p: int| 0 <= p < pages@.len() implies spec_is_image_name(
                        #[trigger] pages@[p]@) && names.contains(pages@[p]@) by {
                        let x = pages@[p];
                        assert(spec_image_names(coll).contains(x));
                        let q = choose|q: int| 0 <= q < coll.filter(pred).len()
                            && coll.filter(pred)[q] == x;
                        lemma_filter_element_of(coll, pred, q);
                        let t = choose|t: int| 0 <= t < coll.len() && coll[t] == x;
                        assert(coll[t]@ == names[t]);
                        assert(names.contains(x@));
                    }
                    assert forall|i2: int|
                        0 <= i2 < names.len() && spec_is_image_name(#[trigger] names[i2])
                        implies spec_name_listed(pages@, names[i2]) by {
                        let x = coll[i2];
                        assert(pred(x));
                        coll.lemma_filter_contains(pred, i2);
                        assert(spec_image_names(coll).contains(x));
                        assert(spec_name_listed(pages@, x@));
                        assert(x@ == names[i2]);
                    }
                }
                Ok(ZipSource { archive, pages })
            },
            Err(e) => {
                proof {
                    assert(spec_image_names(coll) == coll.filter(pred));
                    assert forall|i2: int| 0 <= i2 < names.len() implies !spec_is_image_name(
                        #[trigger] names[i2]) by {
                        if spec_is_image_name(names[i2]) {
                            let x = coll[i2];
                            assert(pred(x));
                            coll.lemma_filter_contains(pred, i2);
                            assert(coll.filter(pred).len() > 0);
                        }
                    }
                }
                Err(e)
            },
        }
    }

    /// Open archive bytes as a source. Bytes that do not parse as an archive
    /// are exactly the bad-container failure; an archive whose entries carry
    /// no image extension is the no-images failure; with at least one image
    /// entry the source opens, holding those entries once each in natural
    /// order. The caller's previous source stays untouched either way.
    pub fn open(bytes: Vec<u8>) -> (r: Result<ZipSource, OpenError>)
        ensures
            match r {
                Ok(src) => {
                    &&& src.wf()
                    &&& Some(zip_entry_names(src.archive)) == zip_names_of(bytes@)
                    &&& forall|i: int|
                        0 <= i < zip_entry_names(src.archive).len() && spec_is_image_name(
                            #[trigger] zip_entry_names(src.archive)[i]) ==> spec_name_listed(
                            src.pages@, zip_entry_names(src.archive)[i])
                },
                Err(e) => {
                    &&& (e == OpenError::BadContainer) == (zip_names_of(bytes@) is None)
                    &&& e == OpenError::BadContainer || e == OpenError::NoImages
                    &&& e == OpenError::NoImages ==> (zip_names_of(bytes@) matches Some(ns)
                        && forall|i: int| 0 <= i < ns.len() ==> !spec_is_image_name(
                            #[trigger] ns[i]))
                },
            },
    {
        match zip_open(bytes) {
            None => Err(OpenError::BadContainer),
            Some(archive) => ZipSource::from_archive(archive),
        }
    }

    /// The bytes of the named page: exactly what the archive holds for that
    /// entry name, or nothing when the entry is absent or cannot be
    /// extracted. One failed page never touches the page list or the
    /// archive's contents: its slot simply stays empty.
    pub fn read_page(&mut self, name: &String) -> (r: Option<Vec<u8>>)
        requires
            old(self).wf(),
        ensures
            final(self).wf(),
            final(self).pages == old(self).pages,
            zip_entry_names(final(self).archive) == zip_entry_names(old(self).archive),
            forall|n: Seq<char>| #[trigger] zip_entry_data(final(self).archive, n)
                == zip_entry_data(old(self).archive, n),
            r is Some == zip_entry_data(old(self).archive, name@) is Some,
            r matches Some(b) ==> Some(b@) == zip_entry_data(old(self).archive, name@),
    {
        zip_read(&mut self.archive, name)
    }

    /// The number of pages.
    pub fn page_count(&self) -> (r: usize)
        ensures
            r == self.pages@.len(),
    {
        self.pages.len()
    }
}

} // verus!
