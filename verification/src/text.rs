//! Character-level utilities on `&str` and `String`.
//!
//! All searching and slicing is done by character index, so every contract is
//! stated over the `Seq<char>` view of the strings involved.

use vstd::prelude::*;
use vstd::string::StrSliceExecFns;

verus! {

/// True when `needle` occurs in `hay` starting at character index `at`.
pub open spec fn matches_at(hay: Seq<char>, needle: Seq<char>, at: int) -> bool {
    &&& 0 <= at
    &&& at + needle.len() <= hay.len()
    &&& hay.subrange(at, at + needle.len() as int) == needle
}

/// True when `needle` occurs somewhere in `hay`.
pub open spec fn contains_seq(hay: Seq<char>, needle: Seq<char>) -> bool {
    exists|i: int| matches_at(hay, needle, i)
}

/// The least index `>= i` at which `needle` occurs in `hay`, if any.
pub open spec fn find_from(hay: Seq<char>, needle: Seq<char>, i: int) -> Option<int>
    decreases hay.len() + 1 - i,
{
    if i < 0 || i + needle.len() > hay.len() {
        None
    } else if matches_at(hay, needle, i) {
        Some(i)
    } else {
        find_from(hay, needle, i + 1)
    }
}

/// What `find_from` returns is the least match at or after `i`; `None` means
/// no match at or after `i`.
pub proof fn lemma_find_from_props(hay: Seq<char>, needle: Seq<char>, i: int)
    requires
        i >= 0,
    ensures
        match find_from(hay, needle, i) {
            Some(k) => i <= k && matches_at(hay, needle, k) && forall|j: int|
                i <= j < k ==> !matches_at(hay, needle, j),
            None => forall|j: int| j >= i ==> !matches_at(hay, needle, j),
        },
    decreases hay.len() + 1 - i,
{
    if i + needle.len() > hay.len() {
    } else if matches_at(hay, needle, i) {
    } else {
        lemma_find_from_props(hay, needle, i + 1);
    }
}

/// Character equality of two string slices.
pub fn str_eq(a: &str, b: &str) -> (r: bool)
    ensures
        r == (a@ == b@),
{
    let alen = a.unicode_len();
    let blen = b.unicode_len();
    if alen != blen {
        return false;
    }
    let mut i: usize = 0;
    while i < alen
        invariant
            i <= alen,
            alen == a@.len(),
            blen == b@.len(),
            alen == blen,
            forall|j: int| 0 <= j < i ==> a@[j] == b@[j],
        decreases alen - i,
    {
        if a.get_char(i) != b.get_char(i) {
            return false;
        }
        i += 1;
    }
    proof {
        assert(a@ =~= b@);
    }
    true
}

/// Whether `needle` occurs at position `at` of `hay`; a bounds-checked
/// character-by-character comparison.
fn matches_at_exec(hay: &str, needle: &str, at: usize, hay_len: usize, needle_len: usize) -> (r: bool)
    requires
        hay_len == hay@.len(),
        needle_len == needle@.len(),
        at + needle_len <= hay_len,
    ensures
        r == matches_at(hay@, needle@, at as int),
{
    let mut j: usize = 0;
    while j < needle_len
        invariant
            j <= needle_len,
            needle_len == needle@.len(),
            hay_len == hay@.len(),
            at + needle_len <= hay_len,
            forall|k: int| 0 <= k < j ==> hay@[at + k] == needle@[k],
        decreases needle_len - j,
    {
        if hay.get_char(at + j) != needle.get_char(j) {
            proof {
                assert(hay@.subrange(at as int, at + needle@.len() as int)[j as int] == hay@[at + j]);
            }
            return false;
        }
        j += 1;
    }
    proof {
        assert(hay@.subrange(at as int, at + needle@.len() as int) =~= needle@);
    }
    true
}

/// The first character index at which `needle` occurs in `hay`, if any.
pub fn find_sub(hay: &str, needle: &str) -> (r: Option<usize>)
    ensures
        match r {
            Some(i) => find_from(hay@, needle@, 0) == Some(i as int),
            None => find_from(hay@, needle@, 0) is None,
        },
{
    let hay_len = hay.unicode_len();
    let needle_len = needle.unicode_len();
    if needle_len > hay_len {
        assert(find_from(hay@, needle@, 0) is None);
        return None;
    }
    if needle_len == 0 {
        proof {
            assert(hay@.subrange(0, 0) =~= needle@);
            assert(find_from(hay@, needle@, 0) == Some(0int));
        }
        return Some(0);
    }
    let last = hay_len - needle_len;
    let mut i: usize = 0;
    while i <= last
        invariant
            hay_len == hay@.len(),
            needle_len == needle@.len(),
            0 < needle_len <= hay_len,
            last == hay_len - needle_len,
            i <= last + 1,
            find_from(hay@, needle@, 0) == find_from(hay@, needle@, i as int),
        decreases last + 1 - i,
    {
        if matches_at_exec(hay, needle, i, hay_len, needle_len) {
            proof {
                assert(find_from(hay@, needle@, i as int) == Some(i as int));
            }
            return Some(i);
        }
        proof {
            assert(find_from(hay@, needle@, i as int) == find_from(hay@, needle@, i + 1));
        }
        i += 1;
    }
    proof {
        assert(find_from(hay@, needle@, i as int) is None);
    }
    None
}

/// Whether `needle` occurs anywhere in `hay`.
pub fn contains_sub(hay: &str, needle: &str) -> (r: bool)
    ensures
        r == contains_seq(hay@, needle@),
{
    let f = find_sub(hay, needle);
    proof {
        lemma_find_from_props(hay@, needle@, 0);
    }
    f.is_some()
}

/// True when `p` is a prefix of `h`.
pub open spec fn has_prefix(h: Seq<char>, p: Seq<char>) -> bool {
    matches_at(h, p, 0)
}

/// True when `s` is a suffix of `h`.
pub open spec fn has_suffix(h: Seq<char>, s: Seq<char>) -> bool {
    matches_at(h, s, h.len() - s.len())
}

/// Whether `hay` starts with `prefix`.
pub fn starts_with(hay: &str, prefix: &str) -> (r: bool)
    ensures
        r == has_prefix(hay@, prefix@),
{
    let hay_len = hay.unicode_len();
    let prefix_len = prefix.unicode_len();
    if prefix_len > hay_len {
        return false;
    }
    matches_at_exec(hay, prefix, 0, hay_len, prefix_len)
}

/// Whether `hay` ends with `suffix`.
pub fn ends_with(hay: &str, suffix: &str) -> (r: bool)
    ensures
        r == has_suffix(hay@, suffix@),
{
    let hay_len = hay.unicode_len();
    let suffix_len = suffix.unicode_len();
    if suffix_len > hay_len {
        return false;
    }
    matches_at_exec(hay, suffix, hay_len - suffix_len, hay_len, suffix_len)
}

/// The least index `>= i` holding character `c`, if any.
pub open spec fn find_char_from(h: Seq<char>, c: char, i: int) -> Option<int>
    decreases h.len() - i,
{
    if i < 0 || i >= h.len() {
        None
    } else if h[i] == c {
        Some(i)
    } else {
        find_char_from(h, c, i + 1)
    }
}

/// The prefix of `h` up to (excluding) the first occurrence of `c`; all of
/// `h` when `c` does not occur.
pub open spec fn prefix_before_char(h: Seq<char>, c: char) -> Seq<char> {
    match find_char_from(h, c, 0) {
        Some(i) => h.subrange(0, i),
        None => h,
    }
}

/// The part of `s` before the first occurrence of `c`.
pub fn split_first<'a>(s: &'a str, c: char) -> (r: &'a str)
    ensures
        r@ == prefix_before_char(s@, c),
{
    let len = s.unicode_len();
    let mut i: usize = 0;
    while i < len
        invariant
            len == s@.len(),
            i <= len,
            find_char_from(s@, c, 0) == find_char_from(s@, c, i as int),
        decreases len - i,
    {
        if s.get_char(i) == c {
            proof {
                assert(find_char_from(s@, c, i as int) == Some(i as int));
            }
            return s.substring_char(0, i);
        }
        proof {
            assert(find_char_from(s@, c, i as int) == find_char_from(s@, c, i + 1));
        }
        i += 1;
    }
    proof {
        assert(find_char_from(s@, c, i as int) is None);
    }
    s
}

/// The index just past the last occurrence of `c` among the first `i`
/// characters of `h`; 0 when there is none.
pub open spec fn cut_after_last(h: Seq<char>, c: char, i: int) -> int
    decreases i,
{
    if i <= 0 {
        0
    } else if h[i - 1] == c {
        i
    } else {
        cut_after_last(h, c, i - 1)
    }
}

/// The final segment of `h` after its last occurrence of `c`; all of `h`
/// when `c` does not occur.
pub open spec fn after_last_char(h: Seq<char>, c: char) -> Seq<char> {
    h.subrange(cut_after_last(h, c, h.len() as int), h.len() as int)
}

/// The part of `s` after the last occurrence of `c` (all of `s` when `c`
/// does not occur).
pub fn split_last<'a>(s: &'a str, c: char) -> (r: &'a str)
    ensures
        r@ == after_last_char(s@, c),
{
    let len = s.unicode_len();
    let mut i: usize = len;
    while i > 0
        invariant
            len == s@.len(),
            i <= len,
            cut_after_last(s@, c, len as int) == cut_after_last(s@, c, i as int),
        decreases i,
    {
        if s.get_char(i - 1) == c {
            proof {
                assert(cut_after_last(s@, c, i as int) == i as int);
            }
            return s.substring_char(i, len);
        }
        proof {
            assert(cut_after_last(s@, c, i as int) == cut_after_last(s@, c, i - 1));
        }
        i -= 1;
    }
    proof {
        assert(cut_after_last(s@, c, 0) == 0);
        assert(s@.subrange(0, len as int) =~= s@);
    }
    s
}

/// The least index `>= i` whose character differs from `c` (so `h.len()`
/// when everything from `i` on is `c`).
pub open spec fn skip_leading(h: Seq<char>, c: char, i: int) -> int
    decreases h.len() - i,
{
    if 0 <= i < h.len() && h[i] == c {
        skip_leading(h, c, i + 1)
    } else {
        i
    }
}

/// The greatest index `<= i` such that the character just before it differs
/// from `c` (so 0 when everything before `i` is `c`).
pub open spec fn shrink_trailing(h: Seq<char>, c: char, i: int) -> int
    decreases i,
{
    if 0 < i <= h.len() && h[i - 1] == c {
        shrink_trailing(h, c, i - 1)
    } else {
        i
    }
}

/// `h` with every leading and trailing occurrence of `c` removed.
pub open spec fn trim_char_seq(h: Seq<char>, c: char) -> Seq<char> {
    let lo = skip_leading(h, c, 0);
    if lo == h.len() {
        Seq::empty()
    } else {
        h.subrange(lo, shrink_trailing(h, c, h.len() as int))
    }
}

/// `s` with all leading and trailing occurrences of `c` removed.
pub fn trim_matching<'a>(s: &'a str, c: char) -> (r: &'a str)
    ensures
        r@ == trim_char_seq(s@, c),
{
    let len = s.unicode_len();
    let mut lo: usize = 0;
    while lo < len && s.get_char(lo) == c
        invariant
            len == s@.len(),
            lo <= len,
            skip_leading(s@, c, 0) == skip_leading(s@, c, lo as int),
        decreases len - lo,
    {
        proof {
            assert(skip_leading(s@, c, lo as int) == skip_leading(s@, c, lo + 1));
        }
        lo += 1;
    }
    proof {
        assert(skip_leading(s@, c, lo as int) == lo as int);
    }
    if lo == len {
        proof {
            assert(s@.subrange(len as int, len as int) =~= Seq::<char>::empty());
        }
        return s.substring_char(len, len);
    }
    let mut hi: usize = len;
    while hi > lo && s.get_char(hi - 1) == c
        invariant
            len == s@.len(),
            lo < len,
            s@[lo as int] != c,
            lo < hi <= len,
            shrink_trailing(s@, c, len as int) == shrink_trailing(s@, c, hi as int),
        decreases hi,
    {
        proof {
            assert(hi - 1 != lo as int);
            assert(shrink_trailing(s@, c, hi as int) == shrink_trailing(s@, c, hi - 1));
        }
        hi -= 1;
    }
    proof {
        assert(s@[hi - 1] != c);
        assert(shrink_trailing(s@, c, hi as int) == hi as int);
    }
    s.substring_char(lo, hi)
}

/// The characters this crate trims as whitespace: the Unicode White_Space
/// set, as `char::is_whitespace` accepts it.
pub open spec fn is_white_space(c: char) -> bool {
    let u = c as u32;
    u == 0x9 || u == 0xA || u == 0xB || u == 0xC || u == 0xD || u == 0x20 || u == 0x85 || u
        == 0xA0 || u == 0x1680 || (0x2000 <= u && u <= 0x200A) || u == 0x2028 || u == 0x2029 || u
        == 0x202F || u == 0x205F || u == 0x3000
}

/// The least index `>= i` holding a non-whitespace character.
pub open spec fn skip_ws(h: Seq<char>, i: int) -> int
    decreases h.len() - i,
{
    if 0 <= i < h.len() && is_white_space(h[i]) {
        skip_ws(h, i + 1)
    } else {
        i
    }
}

/// `h` without its leading whitespace.
pub open spec fn trim_start_seq(h: Seq<char>) -> Seq<char> {
    h.subrange(skip_ws(h, 0), h.len() as int)
}

/// True when `h` holds only whitespace.
pub open spec fn is_blank_seq(h: Seq<char>) -> bool {
    forall|i: int| 0 <= i < h.len() ==> is_white_space(#[trigger] h[i])
}

/// Whether to treat the character as whitespace.
pub fn is_ws_char(c: char) -> (r: bool)
    ensures
        r == is_white_space(c),
{
    let u = c as u32;
    u == 0x9 || u == 0xA || u == 0xB || u == 0xC || u == 0xD || u == 0x20 || u == 0x85 || u
        == 0xA0 || u == 0x1680 || (0x2000 <= u && u <= 0x200A) || u == 0x2028 || u == 0x2029 || u
        == 0x202F || u == 0x205F || u == 0x3000
}

/// `s` without its leading whitespace.
pub fn trim_start_ws<'a>(s: &'a str) -> (r: &'a str)
    ensures
        r@ == trim_start_seq(s@),
{
    let len = s.unicode_len();
    let mut lo: usize = 0;
    while lo < len && is_ws_char(s.get_char(lo))
        invariant
            len == s@.len(),
            lo <= len,
            skip_ws(s@, 0) == skip_ws(s@, lo as int),
        decreases len - lo,
    {
        proof {
            assert(skip_ws(s@, lo as int) == skip_ws(s@, lo + 1));
        }
        lo += 1;
    }
    proof {
        assert(skip_ws(s@, lo as int) == lo as int);
    }
    s.substring_char(lo, len)
}

/// Whether `s` is empty or all whitespace.
pub fn is_blank(s: &str) -> (r: bool)
    ensures
        r == is_blank_seq(s@),
{
    let len = s.unicode_len();
    let mut i: usize = 0;
    while i < len
        invariant
            len == s@.len(),
            i <= len,
            forall|j: int| 0 <= j < i ==> is_white_space(#[trigger] s@[j]),
        decreases len - i,
    {
        if !is_ws_char(s.get_char(i)) {
            return false;
        }
        i += 1;
    }
    true
}

/// `h` with every non-overlapping occurrence of `pat` (leftmost first)
/// replaced by `rep`; `h` itself when `pat` is empty.
pub open spec fn replace_seq(h: Seq<char>, pat: Seq<char>, rep: Seq<char>) -> Seq<char>
    decreases h.len(),
{
    if pat.len() == 0 || h.len() < pat.len() {
        h
    } else if h.subrange(0, pat.len() as int) == pat {
        rep + replace_seq(h.skip(pat.len() as int), pat, rep)
    } else {
        h.subrange(0, 1) + replace_seq(h.skip(1), pat, rep)
    }
}

/// `s` with every occurrence of `pat` replaced by `rep`.
pub fn replace_sub(s: &str, pat: &str, rep: &str) -> (r: String)
    requires
        pat@.len() > 0,
    ensures
        r@ == replace_seq(s@, pat@, rep@),
{
    let len = s.unicode_len();
    let pat_len = pat.unicode_len();
    let mut out = String::new();
    let mut i: usize = 0;
    proof {
        assert(s@.skip(0) =~= s@);
        assert(out@ + replace_seq(s@, pat@, rep@) =~= replace_seq(s@, pat@, rep@));
    }
    while i < len
        invariant
            len == s@.len(),
            pat_len == pat@.len(),
            0 < pat_len,
            i <= len,
            replace_seq(s@, pat@, rep@) == out@ + replace_seq(s@.skip(i as int), pat@, rep@),
        decreases len - i,
    {
        let ghost rest = s@.skip(i as int);
        let ghost out_before = out@;
        if pat_len <= len - i && matches_at_exec(s, pat, i, len, pat_len) {
            out.append(rep);
            proof {
                assert(rest.subrange(0, pat_len as int) =~= s@.subrange(i as int, i + pat_len));
                assert(rest.skip(pat_len as int) =~= s@.skip(i + pat_len));
                assert(replace_seq(rest, pat@, rep@) == rep@ + replace_seq(
                    s@.skip(i + pat_len),
                    pat@,
                    rep@,
                ));
                assert(out_before + (rep@ + replace_seq(s@.skip(i + pat_len), pat@, rep@)) =~= out@
                    + replace_seq(s@.skip(i + pat_len), pat@, rep@));
            }
            i += pat_len;
        } else {
            let piece = s.substring_char(i, i + 1);
            out.append(piece);
            proof {
                assert(rest.subrange(0, 1) =~= s@.subrange(i as int, i + 1));
                assert(rest.skip(1) =~= s@.skip(i + 1));
                if rest.len() < pat@.len() {
                    assert(replace_seq(rest, pat@, rep@) == rest);
                    assert(replace_seq(s@.skip(i + 1), pat@, rep@) == s@.skip(i + 1));
                    assert(rest =~= rest.subrange(0, 1) + rest.skip(1));
                } else {
                    assert(rest.subrange(0, pat_len as int) =~= s@.subrange(i as int, i + pat_len));
                    assert(!(rest.subrange(0, pat_len as int) == pat@));
                    assert(replace_seq(rest, pat@, rep@) == rest.subrange(0, 1) + replace_seq(
                        rest.skip(1),
                        pat@,
                        rep@,
                    ));
                }
                assert(out_before + (rest.subrange(0, 1) + replace_seq(
                    s@.skip(i + 1),
                    pat@,
                    rep@,
                )) =~= out@ + replace_seq(s@.skip(i + 1), pat@, rep@));
            }
            i += 1;
        }
    }
    proof {
        assert(s@.skip(len as int) =~= Seq::<char>::empty());
        assert(replace_seq(Seq::<char>::empty(), pat@, rep@) == Seq::<char>::empty());
        assert(out@ + Seq::<char>::empty() =~= out@);
    }
    out
}

/// The second piece of `h` split on `sep` (the text after the first
/// occurrence of `sep`, up to the next occurrence); `None` when `sep` does
/// not occur.
pub open spec fn split_nth1_seq(h: Seq<char>, sep: Seq<char>) -> Option<Seq<char>> {
    match find_from(h, sep, 0) {
        None => None,
        Some(i) => {
            let rest = h.skip(i + sep.len());
            match find_from(rest, sep, 0) {
                None => Some(rest),
                Some(j) => Some(rest.subrange(0, j)),
            }
        },
    }
}

/// The second piece of `s` split on `sep`, as an iterator's `nth(1)` of a
/// split would hand it out.
pub fn segment_after_first<'a>(s: &'a str, sep: &str) -> (r: Option<&'a str>)
    ensures
        match r {
            Some(t) => split_nth1_seq(s@, sep@) == Some(t@),
            None => split_nth1_seq(s@, sep@) is None,
        },
{
    let len = s.unicode_len();
    let sep_len = sep.unicode_len();
    match find_sub(s, sep) {
        None => None,
        Some(i) => {
            proof {
                lemma_find_from_props(s@, sep@, 0);
            }
            let start = i + sep_len;
            let rest = s.substring_char(start, len);
            proof {
                assert(rest@ =~= s@.skip(start as int));
            }
            match find_sub(rest, sep) {
                None => Some(rest),
                Some(j) => {
                    proof {
                        lemma_find_from_props(rest@, sep@, 0);
                    }
                    Some(rest.substring_char(0, j))
                },
            }
        },
    }
}

/// The concatenation of two string slices.
pub fn concat_str(a: &str, b: &str) -> (r: String)
    ensures
        r@ == a@ + b@,
{
    let mut r: String = a.to_owned();
    r.append(b);
    r
}

/// `a` and `b` joined with a single path separator.
pub fn path_join(a: &str, b: &str) -> (r: String)
    ensures
        r@ == a@ + "/"@ + b@,
{
    let mut r: String = a.to_owned();
    r.append("/");
    r.append(b);
    r
}

/// `h` with every trailing copy of `suf` removed, one after the other.
pub open spec fn strip_suffix_rec(h: Seq<char>, suf: Seq<char>) -> Seq<char>
    decreases h.len(),
{
    if suf.len() > 0 && has_suffix(h, suf) {
        strip_suffix_rec(h.take(h.len() - suf.len()), suf)
    } else {
        h
    }
}

/// `s` with every trailing copy of `suf` removed.
pub fn trim_end_matches_str<'a>(s: &'a str, suf: &str) -> (r: &'a str)
    requires
        suf@.len() > 0,
    ensures
        r@ == strip_suffix_rec(s@, suf@),
{
    let suf_len = suf.unicode_len();
    let mut cur = s;
    let mut cur_len = s.unicode_len();
    while cur_len >= suf_len && matches_at_exec(cur, suf, cur_len - suf_len, cur_len, suf_len)
        invariant
            suf_len == suf@.len(),
            0 < suf_len,
            cur_len == cur@.len(),
            strip_suffix_rec(s@, suf@) == strip_suffix_rec(cur@, suf@),
        decreases cur_len,
    {
        let next = cur.substring_char(0, cur_len - suf_len);
        proof {
            assert(next@ =~= cur@.take(cur@.len() - suf@.len()));
        }
        cur = next;
        cur_len = cur_len - suf_len;
    }
    cur
}

/// What `str::to_lowercase` returns on the characters of its argument.
pub uninterp spec fn lower_of(s: Seq<char>) -> Seq<char>;

/// Relies on `str::to_lowercase`: the result depends on the characters of
/// the argument alone.
#[verifier::external_body]
pub(crate) fn lowercase(s: &str) -> (r: String)
    ensures
        r@ == lower_of(s@),
{
    s.to_lowercase()
}

} // verus!
