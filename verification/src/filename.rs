//! Filename derivation: splicing a disambiguating suffix into a filename
//! before its extension, and extracting a filename from a
//! Content-Disposition header value.

use vstd::prelude::*;

use crate::text::{dec_rep, i32_decimal, last_index_of, push_char, rfind_char};

verus! {

/// A name has an extension when a dot stands after the first character of
/// its final path component; a dot that begins that component (a hidden
/// file) is not an extension separator.
pub open spec fn has_extension(name: Seq<char>) -> bool {
    let dot = last_index_of(name, '.');
    dot >= 1 && dot > last_index_of(name, '/') + 1
}

/// The spliced filename: `_<suffix>` inserted immediately before the last
/// extension, or appended when there is no extension. Only the last dot
/// splits, so the penultimate segment of a multi-dot name stays with the
/// base.
pub open spec fn spliced(name: Seq<char>, suffix: int) -> Seq<char> {
    if has_extension(name) {
        let dot = last_index_of(name, '.');
        name.take(dot) + seq!['_'] + dec_rep(suffix) + seq!['.'] + name.skip(dot + 1)
    } else {
        name + seq!['_'] + dec_rep(suffix)
    }
}

/// Puts `suffix` in the filename before the extension.
pub fn splice_name(fname: &str, suffix: &i32) -> (r: String)
    ensures
        r@ == spliced(fname@, *suffix as int),
{
    let len = fname.unicode_len();
    let num = i32_decimal(*suffix);
    let ext_dot: Option<usize> = match (rfind_char(fname, '.'), rfind_char(fname, '/')) {
        (Some(d), None) if d >= 1 => Some(d),
        (Some(d), Some(s)) if d >= 1 && d > s + 1 => Some(d),
        _ => None,
    };
    match ext_dot {
        Some(dot) => {
            let mut r = fname.substring_char(0, dot).to_owned();
            push_char(&mut r, '_');
            r.append(num.as_str());
            push_char(&mut r, '.');
            r.append(fname.substring_char(dot + 1, len));
            r
        },
        None => {
            let mut r = fname.to_owned();
            push_char(&mut r, '_');
            r.append(num.as_str());
            r
        },
    }
}

/// The marker that introduces a filename in a Content-Disposition header.
pub open spec fn header_marker() -> Seq<char> {
    seq!['f', 'i', 'l', 'e', 'n', 'a', 'm', 'e', '=']
}

/// The marker stands in `h` at position `i`.
pub open spec fn marker_at(h: Seq<char>, i: int) -> bool {
    0 <= i && i + 9 <= h.len() && h.subrange(i, i + 9) == header_marker()
}

/// The first position at or after `i` where the marker stands, or `-1` when
/// it stands nowhere from `i` on.
pub open spec fn find_marker_from(h: Seq<char>, i: int) -> int
    recommends
        0 <= i,
    decreases h.len() - i,
{
    if i < 0 || i + 9 > h.len() {
        -1
    } else if marker_at(h, i) {
        i
    } else {
        find_marker_from(h, i + 1)
    }
}

/// `find_marker_from` finds the first marker position at or after `i`;
/// `-1` means the marker stands nowhere from `i` on.
pub proof fn lemma_find_marker_from(h: Seq<char>, i: int)
    requires
        0 <= i,
    ensures
        -1 <= find_marker_from(h, i),
        find_marker_from(h, i) == -1 ==> forall|k: int| i <= k ==> !marker_at(h, k),
        find_marker_from(h, i) >= 0 ==> i <= find_marker_from(h, i) && marker_at(
            h,
            find_marker_from(h, i),
        ) && forall|k: int| i <= k < find_marker_from(h, i) ==> !marker_at(h, k),
    decreases h.len() - i,
{
    if i + 9 <= h.len() && !marker_at(h, i) {
        lemma_find_marker_from(h, i + 1);
    }
}

/// `s` with every leading and trailing double-quote character removed.
pub open spec fn trim_quotes(s: Seq<char>) -> Seq<char>
    decreases s.len(),
{
    if s.len() > 0 && s.first() == '"' {
        trim_quotes(s.drop_first())
    } else if s.len() > 0 && s.last() == '"' {
        trim_quotes(s.drop_last())
    } else {
        s
    }
}

/// The filename a header value carries: the text after the first
/// `filename=` marker, with surrounding double quotes stripped from both
/// ends; nothing when the marker is absent.
pub open spec fn header_filename(h: Seq<char>) -> Option<Seq<char>> {
    let i = find_marker_from(h, 0);
    if i >= 0 {
        Some(trim_quotes(h.skip(i + 9)))
    } else {
        None
    }
}

/// A header value yields a filename exactly when the `filename=` marker
/// stands somewhere in it.
pub proof fn lemma_header_filename_present(h: Seq<char>)
    ensures
        header_filename(h) is Some <==> exists|i: int| marker_at(h, i),
{
    lemma_find_marker_from(h, 0);
    let f = find_marker_from(h, 0);
    if f >= 0 {
        assert(marker_at(h, f));
    }
}

fn marker_char(j: usize) -> (c: char)
    requires
        j < 9,
    ensures
        c == header_marker()[j as int],
{
    match j {
        0 => 'f',
        1 => 'i',
        2 => 'l',
        3 => 'e',
        4 => 'n',
        5 => 'a',
        6 => 'm',
        7 => 'e',
        _ => '=',
    }
}

fn marker_stands_at(h: &str, i: usize) -> (r: bool)
    requires
        i + 9 <= h@.len(),
        h@.len() <= usize::MAX,
    ensures
        r == marker_at(h@, i as int),
{
    let mut j: usize = 0;
    while j < 9
        invariant
            j <= 9,
            i + 9 <= h@.len() <= usize::MAX,
            forall|k: int| 0 <= k < j ==> h@[i + k] == header_marker()[k],
        decreases 9 - j,
    {
        if h.get_char(i + j) != marker_char(j) {
            proof {
                assert(h@.subrange(i as int, i + 9)[j as int] != header_marker()[j as int]);
            }
            return false;
        }
        j = j + 1;
    }
    proof {
        assert(h@.subrange(i as int, i + 9) =~= header_marker());
    }
    true
}

fn trim_quote_ends(s: &str) -> (r: String)
    ensures
        r@ == trim_quotes(s@),
{
    let len = s.unicode_len();
    let mut start: usize = 0;
    let mut end: usize = len;
    proof {
        assert(s@.subrange(0, len as int) =~= s@);
    }
    while start < end && s.get_char(start) == '"'
        invariant
            start <= end <= len,
            len == s@.len(),
            end == len,
            trim_quotes(s@) == trim_quotes(s@.subrange(start as int, end as int)),
        decreases end - start,
    {
        proof {
            let t = s@.subrange(start as int, end as int);
            assert(t.drop_first() =~= s@.subrange(start + 1, end as int));
        }
        start = start + 1;
    }
    while end > start && s.get_char(end - 1) == '"'
        invariant
            start <= end <= len,
            len == s@.len(),
            trim_quotes(s@) == trim_quotes(s@.subrange(start as int, end as int)),
            start < end ==> s@[start as int] != '"',
        decreases end - start,
    {
        proof {
            let t = s@.subrange(start as int, end as int);
            assert(t.drop_last() =~= s@.subrange(start as int, end - 1));
        }
        end = end - 1;
    }
    let r = s.substring_char(start, end).to_owned();
    proof {
        let t = s@.subrange(start as int, end as int);
        assert(trim_quotes(t) == t);
    }
    r
}

/// Extracts the filename from a Content-Disposition header. The search for
/// `filename=` is case-sensitive and takes the first occurrence; extended
/// (`filename*=`) parameters and quoted-pair unescaping are out of scope.
pub fn filename_from_header(header_value: &str) -> (r: Option<String>)
    ensures
        r.deep_view() == header_filename(header_value@),
{
    let len = header_value.unicode_len();
    let mut i: usize = 0;
    while len - i >= 9 && i < len
        invariant
            i <= len,
            len == header_value@.len(),
            forall|k: int| 0 <= k < i ==> !marker_at(header_value@, k),
        decreases len - i,
    {
        if marker_stands_at(header_value, i) {
            proof {
                lemma_find_marker_from(header_value@, 0);
                let f = find_marker_from(header_value@, 0);
                assert(marker_at(header_value@, i as int));
                assert(f != -1);
                assert(!(f < i)) by {
                    if 0 <= f < i {
                        assert(!marker_at(header_value@, f));
                    }
                }
                assert(!(f > i)) by {
                    if f > i {
                        assert(!marker_at(header_value@, i as int));
                    }
                }
            }
            let rest = header_value.substring_char(i + 9, len);
            let trimmed = trim_quote_ends(rest);
            proof {
                assert(rest@ =~= header_value@.skip(i + 9));
            }
            return Some(trimmed);
        }
        i = i + 1;
    }
    proof {
        lemma_find_marker_from(header_value@, 0);
        let f = find_marker_from(header_value@, 0);
        if f >= 0 {
            assert(marker_at(header_value@, f));
            assert(!marker_at(header_value@, f));
        }
    }
    None
}

} // verus!
