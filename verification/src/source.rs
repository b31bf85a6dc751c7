//! Page sources: recognising container kinds by name, selecting the image
//! entries of a container, the synthetic page names of a document, and
//! locating a requested page in an ordered walk.
use vstd::prelude::*;
use vstd::relations::sorted_by;
use crate::config::SourceMode;
use crate::natural::{fold_code, lemma_nat_le_antisym, lemma_nat_le_trans, nat_le,
    natural_sort_strings, string_nat_le};

verus! {

/// Why opening a path produced no source.
#[derive(Debug, PartialEq, Eq, Structural, Clone, Copy)]
pub enum OpenError {
    /// The path could not be read at all.
    PathUnreadable,
    /// The container was unsupported or corrupt.
    BadContainer,
    /// The container held no page with an image extension.
    NoImages,
}

/// The tail of `s` matches `pat`, comparing case-folded code points.
pub open spec fn spec_ends_with_fold(s: Seq<char>, pat: Seq<char>) -> bool {
    s.len() >= pat.len() && forall|k: int| 0 <= k < pat.len()
        ==> fold_code(s[s.len() - pat.len() + k]) == #[trigger] fold_code(pat[k])
}

/// The name carries one of the image extensions a source lists as pages.
pub open spec fn spec_is_image_name(s: Seq<char>) -> bool {
    ||| spec_ends_with_fold(s, ".png"@)
    ||| spec_ends_with_fold(s, ".jpg"@)
    ||| spec_ends_with_fold(s, ".jpeg"@)
    ||| spec_ends_with_fold(s, ".bmp"@)
    ||| spec_ends_with_fold(s, ".webp"@)
    ||| spec_ends_with_fold(s, ".gif"@)
    ||| spec_ends_with_fold(s, ".tiff"@)
    ||| spec_ends_with_fold(s, ".tga"@)
    ||| spec_ends_with_fold(s, ".avif"@)
}

/// The name carries one of the container extensions the viewer can open as
/// a sibling source.
pub open spec fn spec_is_container_name(s: Seq<char>) -> bool {
    ||| spec_ends_with_fold(s, ".zip"@)
    ||| spec_ends_with_fold(s, ".cbz"@)
    ||| spec_ends_with_fold(s, ".cbr"@)
    ||| spec_ends_with_fold(s, ".rar"@)
    ||| spec_ends_with_fold(s, ".pdf"@)
}

/// The container kind a name is recognised as; anything without a known
/// archive or document extension is handled as a directory (or pivots to
/// its parent directory when it is a plain file).
pub open spec fn spec_classify_name(s: Seq<char>) -> SourceMode {
    if spec_ends_with_fold(s, ".zip"@) || spec_ends_with_fold(s, ".cbz"@) {
        SourceMode::Zip
    } else if spec_ends_with_fold(s, ".cbr"@) || spec_ends_with_fold(s, ".rar"@) {
        SourceMode::Rar
    } else if spec_ends_with_fold(s, ".pdf"@) {
        SourceMode::Pdf
    } else {
        SourceMode::Folder
    }
}

/// The name is hidden in a directory listing.
pub open spec fn spec_is_hidden(s: Seq<char>) -> bool {
    s.len() > 0 && s[0] == '.'
}

fn ends_with_fold(s: &str, pat: &str) -> (r: bool)
    ensures
        r == spec_ends_with_fold(s@, pat@),
{
    let sl = s.unicode_len();
    let pl = pat.unicode_len();
    if sl < pl {
        return false;
    }
    let base = sl - pl;
    let mut k: usize = 0;
    while k < pl
        invariant
            k <= pl,
            sl == s@.len(),
            pl == pat@.len(),
            base == sl - pl,
            forall|t: int| 0 <= t < k
                ==> fold_code(s@[base + t]) == #[trigger] fold_code(pat@[t]),
        decreases pl - k,
    {
        let cs = s.get_char(base + k);
        let cp = pat.get_char(k);
        let fs = if 65 <= cs as u32 && cs as u32 <= 90 { cs as u32 + 32 } else { cs as u32 };
        let fp = if 65 <= cp as u32 && cp as u32 <= 90 { cp as u32 + 32 } else { cp as u32 };
        if fs != fp {
            proof {
                assert(fs as int == fold_code(s@[base + k]));
                assert(fp as int == fold_code(pat@[k as int]));
            }
            return false;
        }
        k = k + 1;
    }
    true
}

/// Whether a name counts as a page of a source.
pub fn is_image_name(s: &str) -> (r: bool)
    ensures
        r == spec_is_image_name(s@),
{
    ends_with_fold(s, ".png") || ends_with_fold(s, ".jpg") || ends_with_fold(s, ".jpeg")
        || ends_with_fold(s, ".bmp") || ends_with_fold(s, ".webp") || ends_with_fold(s, ".gif")
        || ends_with_fold(s, ".tiff") || ends_with_fold(s, ".tga") || ends_with_fold(s, ".avif")
}

/// Whether a name counts as an openable sibling container.
pub fn is_container_name(s: &str) -> (r: bool)
    ensures
        r == spec_is_container_name(s@),
{
    ends_with_fold(s, ".zip") || ends_with_fold(s, ".cbz") || ends_with_fold(s, ".cbr")
        || ends_with_fold(s, ".rar") || ends_with_fold(s, ".pdf")
}

/// Whether a directory entry is hidden.
pub fn is_hidden_name(s: &str) -> (r: bool)
    ensures
        r == spec_is_hidden(s@),
{
    if s.unicode_len() == 0 {
        false
    } else {
        s.get_char(0) == '.'
    }
}

/// The container kind a path will be opened as, judged by its name.
pub fn classify_name(s: &str) -> (r: SourceMode)
    ensures
        r == spec_classify_name(s@),
{
    if ends_with_fold(s, ".zip") || ends_with_fold(s, ".cbz") {
        SourceMode::Zip
    } else if ends_with_fold(s, ".cbr") || ends_with_fold(s, ".rar") {
        SourceMode::Rar
    } else if ends_with_fold(s, ".pdf") {
        SourceMode::Pdf
    } else {
        SourceMode::Folder
    }
}

/// The names that carry an image extension, in their given order: what a
/// container offers as pages, before ordering.
pub open spec fn spec_image_names(names: Seq<String>) -> Seq<String> {
    names.filter(|s: String| spec_is_image_name(s@))
}

/// Some page of the list carries this name.
pub open spec fn spec_name_listed(pages: Seq<String>, name: Seq<char>) -> bool {
    exists|p: int| 0 <= p < pages.len() && #[trigger] pages[p]@ == name
}

/// Drop repeated names from a naturally ordered list: equal names stand
/// together there, so comparing each name with the last kept one removes
/// every duplicate.
fn dedup_sorted(kept: Vec<String>) -> (out: Vec<String>)
    requires
        forall|p: int, q: int| 0 <= p < q < kept@.len()
            ==> nat_le(#[trigger] kept@[p]@, #[trigger] kept@[q]@),
    ensures
        kept@.len() > 0 ==> out@.len() > 0,
        forall|p: int, q: int| 0 <= p < q < out@.len()
            ==> nat_le(#[trigger] out@[p]@, #[trigger] out@[q]@) && out@[p]@ != out@[q]@,
        forall|p: int| 0 <= p < out@.len() ==> kept@.contains(#[trigger] out@[p]),
        forall|k: int| 0 <= k < kept@.len() ==> spec_name_listed(out@, #[trigger] kept@[k]@),
{
    let mut out: Vec<String> = Vec::new();
    let mut j: usize = 0;
    while j < kept.len()
        invariant
            j <= kept@.len(),
            forall|p: int, q: int| 0 <= p < q < kept@.len()
                ==> nat_le(#[trigger] kept@[p]@, #[trigger] kept@[q]@),
            forall|p: int, q: int| 0 <= p < q < out@.len()
                ==> nat_le(#[trigger] out@[p]@, #[trigger] out@[q]@) && out@[p]@ != out@[q]@,
            forall|p: int| 0 <= p < out@.len() ==> kept@.contains(#[trigger] out@[p]),
            forall|k: int| 0 <= k < j ==> spec_name_listed(out@, #[trigger] kept@[k]@),
            j > 0 ==> out@.len() > 0 && out@.last()@ == kept@[j - 1]@,
            out@.len() > 0 ==> j > 0,
        decreases kept@.len() - j,
    {
        let is_new = if out.len() == 0 {
            true
        } else {
            let last: &String = &out[out.len() - 1];
            let cur: &String = &kept[j];
            !last.eq(cur)
        };
        let ghost old_out = out@;
        if is_new {
            out.push(kept[j].clone());
            proof {
                let x = kept@[j as int];
                let n = out@.len() - 1;
                assert(out@[n] == x);
                assert(out@ == old_out.push(x));
                if old_out.len() > 0 {
                    assert(j > 0);
                    assert(old_out.last()@ != x@);
                    assert(old_out.last()@ == kept@[j - 1]@);
                    assert(nat_le(kept@[j - 1]@, kept@[j as int]@));
                }
                assert forall|p: int, q: int| 0 <= p < q < out@.len()
                    implies nat_le(#[trigger] out@[p]@, #[trigger] out@[q]@)
                        && out@[p]@ != out@[q]@ by {
                    if q == n {
                        assert(out@[p] == old_out[p]);
                        let last = old_out[old_out.len() - 1];
                        if p < old_out.len() - 1 {
                            assert(nat_le(old_out[p]@, last@));
                            assert(old_out[p]@ != last@);
                            lemma_nat_le_trans(old_out[p]@, last@, x@);
                            if old_out[p]@ == x@ {
                                lemma_nat_le_antisym(last@, x@);
                            }
                        }
                    } else {
                        assert(out@[p] == old_out[p] && out@[q] == old_out[q]);
                        assert(nat_le(old_out[p]@, old_out[q]@) && old_out[p]@ != old_out[q]@);
                    }
                }
                assert forall|k: int| 0 <= k < j + 1 implies spec_name_listed(
                    out@, #[trigger] kept@[k]@) by {
                    if k < j {
                        assert(spec_name_listed(old_out, kept@[k]@));
                        let p = choose|p: int|
                            0 <= p < old_out.len() && #[trigger] old_out[p]@ == kept@[k]@;
                        assert(out@[p]@ == kept@[k]@);
                    } else {
                        assert(out@[n]@ == kept@[k]@);
                    }
                }
                assert forall|p: int| 0 <= p < out@.len() implies kept@.contains(
                    #[trigger] out@[p]) by {
                    if p < n {
                        assert(out@[p] == old_out[p]);
                        assert(kept@.contains(old_out[p]));
                    } else {
                        assert(out@[p] == kept@[j as int]);
                    }
                }
            }
        } else {
            proof {
                let n = out@.len() - 1;
                assert(out@[n]@ == kept@[j as int]@);
                assert forall|k: int| 0 <= k < j + 1 implies spec_name_listed(
                    out@, #[trigger] kept@[k]@) by {
                    if k == j {
                        assert(out@[n]@ == kept@[k]@);
                    }
                }
            }
        }
        j = j + 1;
    }
    out
}

/// Keep the names that carry an image extension, in natural order with each
/// name listed once: page identifiers are unique within a source. An empty
/// result is the no-images-found failure, and the previous source (which the
/// caller still holds) stays as it was.
pub fn build_page_list(names: Vec<String>) -> (r: Result<Vec<String>, OpenError>)
    ensures
        match r {
            Ok(pages) => {
                &&& pages@.len() > 0
                &&& sorted_by(pages@, |x: String, y: String| string_nat_le(x, y))
                &&& forall|p: int, q: int| 0 <= p < q < pages@.len()
                    ==> #[trigger] pages@[p]@ != #[trigger] pages@[q]@
                &&& forall|p: int| 0 <= p < pages@.len() ==> spec_image_names(
                    names@).contains(#[trigger] pages@[p])
                &&& forall|x: String| #[trigger] spec_image_names(names@).contains(x)
                    ==> spec_name_listed(pages@, x@)
            },
            Err(e) => e == OpenError::NoImages && spec_image_names(names@).len() == 0,
        },
{
    let ghost pred = |s: String| spec_is_image_name(s@);
    let mut kept: Vec<String> = Vec::new();
    let mut i: usize = 0;
    proof {
        reveal(Seq::filter);
        assert(names@.subrange(0, 0).filter(pred) =~= Seq::<String>::empty());
    }
    while i < names.len()
        invariant
            i <= names@.len(),
            pred == (|s: String| spec_is_image_name(s@)),
            kept@ == names@.subrange(0, i as int).filter(pred),
        decreases names@.len() - i,
    {
        let ghost pre = names@.subrange(0, i as int);
        let ghost pre2 = names@.subrange(0, i + 1);
        proof {
            reveal(Seq::filter);
            assert(pre2.drop_last() =~= pre);
            assert(pre2.last() == names@[i as int]);
        }
        let nm = &names[i];
        if is_image_name(nm.as_str()) {
            kept.push(nm.clone());
        }
        i = i + 1;
    }
    proof {
        assert(names@.subrange(0, names@.len() as int) =~= names@);
    }
    if kept.len() == 0 {
        proof {
            broadcast use vstd::seq_lib::group_to_multiset_ensures;
        }
        return Err(OpenError::NoImages);
    }
    natural_sort_strings(&mut kept);
    proof {
        assert forall|p: int, q: int| 0 <= p < q < kept@.len()
            implies nat_le(#[trigger] kept@[p]@, #[trigger] kept@[q]@) by {
            assert((|x: String, y: String| string_nat_le(x, y))(kept@[p], kept@[q]));
        }
    }
    let ghost sorted_kept = kept@;
    let out = dedup_sorted(kept);
    proof {
        broadcast use vstd::seq_lib::group_to_multiset_ensures;

        assert(sorted_by(out@, |x: String, y: String| string_nat_le(x, y))) by {
            assert forall|p: int, q: int| 0 <= p < q < out@.len()
                implies (|x: String, y: String| string_nat_le(x, y))(out@[p], out@[q]) by {
                assert(nat_le(out@[p]@, out@[q]@));
            }
        }
        assert(names@.filter(pred) == spec_image_names(names@));
        assert forall|p: int| 0 <= p < out@.len() implies spec_image_names(names@).contains(
            #[trigger] out@[p]) by {
            assert(sorted_kept.contains(out@[p]));
            assert(sorted_kept.to_multiset().count(out@[p]) > 0);
            assert(names@.filter(pred).to_multiset().count(out@[p]) > 0);
        }
        assert forall|x: String| #[trigger] spec_image_names(names@).contains(x)
            implies spec_name_listed(out@, x@) by {
            assert(names@.filter(pred).to_multiset().count(x) > 0);
            assert(sorted_kept.to_multiset().count(x) > 0);
            assert(sorted_kept.contains(x));
            let k = choose|k: int| 0 <= k < sorted_kept.len() && sorted_kept[k] == x;
            assert(spec_name_listed(out@, sorted_kept[k]@));
        }
    }
    Ok(out)
}

/// The position of the first entry whose name is `target`, scanning from `i`.
pub open spec fn first_match_from(items: Seq<String>, target: Seq<char>, i: int) -> Option<int>
    decreases items.len() - i when 0 <= i <= items.len()
{
    if i >= items.len() {
        None
    } else if items[i]@ == target {
        Some(i)
    } else {
        first_match_from(items, target, i + 1)
    }
}

/// Scan an ordered walk of entry names for the requested one, as a rar
/// extraction walks its archive from the start: the first match is the entry
/// read, and an absent name leaves nothing to read.
pub fn locate_name(items: &Vec<String>, target: &String) -> (r: Option<usize>)
    ensures
        match r {
            Some(k) => first_match_from(items@, target@, 0) == Some(k as int),
            None => first_match_from(items@, target@, 0) is None,
        },
{
    let mut i: usize = 0;
    loop
        invariant
            i <= items@.len(),
            first_match_from(items@, target@, 0) == first_match_from(items@, target@, i as int),
        decreases items@.len() - i,
    {
        if i == items.len() {
            return None;
        }
        let e: &String = &items[i];
        if e.eq(target) {
            return Some(i);
        }
        i = i + 1;
    }
}

/// Where a newly opened source starts: at the page the user asked for when
/// it is in the list, else at the first page.
pub fn start_index(pages: &Vec<String>, start_at: &Option<String>) -> (r: usize)
    ensures
        pages@.len() > 0 ==> r < pages@.len(),
        match start_at {
            Some(t) => match first_match_from(pages@, t@, 0) {
                Some(k) => r == k,
                None => r == 0,
            },
            None => r == 0,
        },
{
    proof {
        lemma_first_match_bounds(pages@, match start_at {
            Some(t) => t@,
            None => Seq::empty(),
        }, 0);
    }
    match start_at {
        Some(t) => match locate_name(pages, t) {
            Some(k) => k,
            None => 0,
        },
        None => 0,
    }
}

/// A located first match lies inside the list.
pub proof fn lemma_first_match_bounds(items: Seq<String>, target: Seq<char>, i: int)
    requires
        0 <= i <= items.len(),
    ensures
        first_match_from(items, target, i) matches Some(k) ==> i <= k < items.len(),
    decreases items.len() - i,
{
    if i < items.len() && !(items[i]@ == target) {
        lemma_first_match_bounds(items, target, i + 1);
    }
}

/// The decimal digits of `n`, most significant first.
pub open spec fn spec_dec_digits(n: int) -> Seq<char>
    decreases n when n >= 0
{
    if n < 10 {
        seq![(48 + n) as char]
    } else {
        spec_dec_digits(n / 10).push((48 + n % 10) as char)
    }
}

/// The synthetic name of a document page.
pub open spec fn spec_pdf_page_name(i: int) -> Seq<char> {
    "pdf_page_"@ + spec_dec_digits(i)
}

fn digit_str(d: usize) -> (r: &'static str)
    requires
        d < 10,
    ensures
        r@ =~= seq![(48 + d as int) as char],
{
    proof {
        reveal_strlit("0");
        reveal_strlit("1");
        reveal_strlit("2");
        reveal_strlit("3");
        reveal_strlit("4");
        reveal_strlit("5");
        reveal_strlit("6");
        reveal_strlit("7");
        reveal_strlit("8");
        reveal_strlit("9");
    }
    match d {
        0 => "0",
        1 => "1",
        2 => "2",
        3 => "3",
        4 => "4",
        5 => "5",
        6 => "6",
        7 => "7",
        8 => "8",
        _ => "9",
    }
}

/// `n` written in decimal.
pub fn dec_string(n: usize) -> (r: String)
    ensures
        r@ == spec_dec_digits(n as int),
    decreases n,
{
    if n < 10 {
        digit_str(n).to_owned()
    } else {
        let mut s = dec_string(n / 10);
        s.append(digit_str(n % 10));
        proof {
            assert(s@ =~= spec_dec_digits(n as int));
        }
        s
    }
}

/// One synthetic page name per document page: `pdf_page_0`, `pdf_page_1`,
/// and so on in page order.
pub fn pdf_page_names(count: usize) -> (r: Vec<String>)
    ensures
        r@.len() == count,
        forall|i: int| 0 <= i < count ==> #[trigger] r@[i]@ == spec_pdf_page_name(i),
{
    let mut out: Vec<String> = Vec::new();
    let mut i: usize = 0;
    while i < count
        invariant
            i <= count,
            out@.len() == i,
            forall|k: int| 0 <= k < i ==> #[trigger] out@[k]@ == spec_pdf_page_name(k),
        decreases count - i,
    {
        let mut name = "pdf_page_".to_owned();
        let digits = dec_string(i);
        name.append(digits.as_str());
        proof {
            assert(name@ =~= spec_pdf_page_name(i as int));
        }
        out.push(name);
        i = i + 1;
    }
    out
}

} // verus!
