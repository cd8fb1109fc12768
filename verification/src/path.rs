//! Decoder and normalizer for the filesystem-path fuzz surface.
//!
//! Only input decodable as text is analyzed; anything else decodes to
//! nothing. The analysis computes three independent traversal flags and
//! a normalized component sequence: empty and `.` segments are dropped,
//! `..` pops the last retained segment (a no-op when nothing is
//! retained), and a segment containing a null character is silently
//! dropped rather than failing the whole path.

use vstd::prelude::*;
use vstd::utf8::decode_utf8;
use vstd::utf8::valid_utf8;

verus! {

/// The text holds two adjacent dots somewhere.
pub open spec fn contains_dot_dot(s: Seq<char>) -> bool {
    exists|i: int| 0 <= i && i + 2 <= s.len() && (#[trigger] s[i]) == '.' && s[i + 1] == '.'
}

/// The text holds a null character somewhere.
pub open spec fn contains_null(s: Seq<char>) -> bool {
    exists|i: int| 0 <= i < s.len() && s[i] == '\0'
}

/// Index of the first slash in `s`, or the length when there is none.
pub open spec fn first_slash(s: Seq<char>) -> int
    decreases s.len(),
{
    if s.len() == 0 {
        0
    } else if s[0] == '/' {
        0
    } else {
        1 + first_slash(s.drop_first())
    }
}

proof fn lemma_first_slash(s: Seq<char>)
    ensures
        0 <= first_slash(s) <= s.len(),
        first_slash(s) < s.len() ==> s[first_slash(s)] == '/',
    decreases s.len(),
{
    if s.len() == 0 {
    } else if s[0] == '/' {
    } else {
        lemma_first_slash(s.drop_first());
    }
}

proof fn lemma_first_slash_at(s: Seq<char>, k: int)
    requires
        0 <= k <= s.len(),
        forall|i: int| 0 <= i < k ==> s[i] != '/',
        k < s.len() ==> s[k] == '/',
    ensures
        first_slash(s) == k,
    decreases s.len(),
{
    if k == 0 {
    } else {
        assert(s[0] != '/');
        assert(forall|i: int| 0 <= i < k - 1 ==> s.drop_first()[i] == s[i + 1]);
        lemma_first_slash_at(s.drop_first(), k - 1);
    }
}

/// `s` split on slashes. Splitting empty text gives one empty segment,
/// as splitting a string does.
pub open spec fn split_slashes(s: Seq<char>) -> Seq<Seq<char>>
    decreases s.len(),
    via split_slashes_decreases
{
    let k = first_slash(s);
    if k == s.len() {
        seq![s]
    } else {
        seq![s.take(k)] + split_slashes(s.skip(k + 1))
    }
}

#[via_fn]
proof fn split_slashes_decreases(s: Seq<char>) {
    lemma_first_slash(s);
}

/// One normalization step on the component stack: empty and `.`
/// segments are dropped, `..` pops the last retained segment (a no-op
/// on an empty stack), a segment containing a null character is
/// dropped, and any other segment is pushed.
pub open spec fn normalize_step(acc: Seq<Seq<char>>, seg: Seq<char>) -> Seq<Seq<char>> {
    if seg.len() == 0 || seg == seq!['.'] {
        acc
    } else if seg == seq!['.', '.'] {
        if acc.len() == 0 {
            acc
        } else {
            acc.drop_last()
        }
    } else if contains_null(seg) {
        acc
    } else {
        acc.push(seg)
    }
}

/// The segments folded through [`normalize_step`], left to right.
pub open spec fn normalize_fold(acc: Seq<Seq<char>>, segs: Seq<Seq<char>>) -> Seq<Seq<char>>
    decreases segs.len(),
{
    if segs.len() == 0 {
        acc
    } else {
        normalize_fold(normalize_step(acc, segs.first()), segs.drop_first())
    }
}

/// The normalized components of the text: its slash-separated segments
/// folded through [`normalize_step`].
pub open spec fn normalized_components(s: Seq<char>) -> Seq<Seq<char>> {
    normalize_fold(Seq::empty(), split_slashes(s))
}

/// The character sequences of a vector of character vectors.
pub open spec fn views_of(segs: Seq<Vec<char>>) -> Seq<Seq<char>> {
    segs.map_values(|v: Vec<char>| v@)
}

/// The character sequences of a vector of strings.
pub open spec fn string_views(out: Seq<String>) -> Seq<Seq<char>> {
    out.map_values(|s: String| s@)
}

/// Flags and normalized components computed from one candidate path
/// text.
pub struct PathAnalysis {
    /// The text contains two adjacent dots somewhere.
    pub has_dot_dot: bool,
    /// The text begins with a slash.
    pub has_absolute: bool,
    /// The text contains a null character somewhere.
    pub has_null_byte: bool,
    /// The normalized component sequence.
    pub components: Vec<String>,
}

fn scan_dot_dot(chars: &Vec<char>) -> (r: bool)
    ensures
        r == contains_dot_dot(chars@),
{
    if chars.len() < 2 {
        return false;
    }
    let mut i: usize = 0;
    while i < chars.len() - 1
        invariant
            chars@.len() >= 2,
            i <= chars@.len() - 1,
            forall|k: int| 0 <= k < i ==> !((#[trigger] chars@[k]) == '.' && chars@[k + 1] == '.'),
        decreases chars@.len() - i,
    {
        if chars[i] == '.' && chars[i + 1] == '.' {
            return true;
        }
        i += 1;
    }
    assert(!contains_dot_dot(chars@));
    false
}

fn scan_null(chars: &Vec<char>) -> (r: bool)
    ensures
        r == contains_null(chars@),
{
    let mut i: usize = 0;
    while i < chars.len()
        invariant
            i <= chars@.len(),
            forall|k: int| 0 <= k < i ==> chars@[k] != '\0',
        decreases chars@.len() - i,
    {
        if chars[i] == '\0' {
            return true;
        }
        i += 1;
    }
    false
}

fn copy_chars(v: &Vec<char>) -> (out: Vec<char>)
    ensures
        out@ == v@,
{
    let mut out: Vec<char> = Vec::new();
    let mut i: usize = 0;
    while i < v.len()
        invariant
            i <= v@.len(),
            out@ == v@.subrange(0, i as int),
        decreases v@.len() - i,
    {
        out.push(v[i]);
        proof {
            assert(out@ =~= v@.subrange(0, i + 1));
        }
        i += 1;
    }
    proof {
        assert(out@ =~= v@);
    }
    out
}

fn split_segments(chars: &Vec<char>) -> (segs: Vec<Vec<char>>)
    ensures
        views_of(segs@) == split_slashes(chars@),
{
    let mut segs: Vec<Vec<char>> = Vec::new();
    let mut cur: Vec<char> = Vec::new();
    let ghost mut start: int = 0;
    let mut i: usize = 0;
    proof {
        assert(chars@.skip(0) =~= chars@);
        assert(views_of(segs@) =~= Seq::<Seq<char>>::empty());
        assert(cur@ =~= chars@.subrange(0, 0));
    }
    while i < chars.len()
        invariant
            0 <= start <= i <= chars@.len(),
            cur@ == chars@.subrange(start, i as int),
            forall|k: int| start <= k < i ==> chars@[k] != '/',
            split_slashes(chars@) == views_of(segs@) + split_slashes(chars@.skip(start)),
        decreases chars@.len() - i,
    {
        let c = chars[i];
        if c == '/' {
            proof {
                let t = chars@.skip(start);
                assert forall|k: int| 0 <= k < i - start implies t[k] != '/' by {
                    assert(t[k] == chars@[start + k]);
                }
                assert(t[i - start] == chars@[i as int]);
                lemma_first_slash_at(t, i - start);
                assert(t.take(i - start) =~= cur@);
                assert(t.skip(i - start + 1) =~= chars@.skip(i + 1));
            }
            let ghost segs_prev = segs@;
            segs.push(cur);
            cur = Vec::new();
            proof {
                assert(views_of(segs@) =~= views_of(segs_prev) + seq![chars@.subrange(start, i as int)]);
                assert(views_of(segs@) + split_slashes(chars@.skip(i + 1)) =~= split_slashes(
                    chars@,
                ));
                start = i + 1;
            }
        } else {
            cur.push(c);
            proof {
                assert(cur@ =~= chars@.subrange(start, i + 1));
            }
        }
        i += 1;
    }
    proof {
        let t = chars@.skip(start);
        assert forall|k: int| 0 <= k < t.len() implies t[k] != '/' by {
            assert(t[k] == chars@[start + k]);
        }
        lemma_first_slash_at(t, t.len() as int);
        assert(t =~= cur@);
    }
    let ghost segs_prev = segs@;
    segs.push(cur);
    proof {
        assert(views_of(segs@) =~= views_of(segs_prev) + seq![chars@.skip(start)]);
        assert(views_of(segs@) =~= split_slashes(chars@));
    }
    segs
}

fn normalize_segments(segs: &Vec<Vec<char>>) -> (comps: Vec<Vec<char>>)
    ensures
        views_of(comps@) == normalize_fold(Seq::empty(), views_of(segs@)),
{
    let mut comps: Vec<Vec<char>> = Vec::new();
    let mut j: usize = 0;
    proof {
        assert(views_of(segs@).skip(0) =~= views_of(segs@));
        assert(views_of(comps@) =~= Seq::<Seq<char>>::empty());
    }
    while j < segs.len()
        invariant
            j <= segs@.len(),
            normalize_fold(views_of(comps@), views_of(segs@).skip(j as int)) == normalize_fold(
                Seq::empty(),
                views_of(segs@),
            ),
        decreases segs@.len() - j,
    {
        let seg = &segs[j];
        let ghost acc0 = views_of(comps@);
        let ghost rest0 = views_of(segs@).skip(j as int);
        proof {
            assert(rest0.first() == seg@);
            assert(rest0.drop_first() =~= views_of(segs@).skip(j + 1));
        }
        if seg.len() == 0 {
            // an empty segment is dropped
        } else if seg.len() == 1 && seg[0] == '.' {
            proof {
                assert(seg@ =~= seq!['.']);
            }
        } else if seg.len() == 2 && seg[0] == '.' && seg[1] == '.' {
            proof {
                assert(seg@ =~= seq!['.', '.']);
            }
            if comps.len() > 0 {
                let ghost comps_prev = comps@;
                let _ = comps.pop();
                proof {
                    assert(views_of(comps@) =~= views_of(comps_prev).drop_last());
                }
            }
        } else if scan_null(seg) {
            // a segment holding a null character is dropped
            proof {
                assert(seg@ != seq!['.'] && seg@ != seq!['.', '.']);
            }
        } else {
            let ghost comps_prev = comps@;
            comps.push(copy_chars(seg));
            proof {
                assert(seg@ != seq!['.'] && seg@ != seq!['.', '.']);
                assert(views_of(comps@) =~= views_of(comps_prev).push(seg@));
            }
        }
        proof {
            assert(views_of(comps@) == normalize_step(acc0, rest0.first()));
            assert(normalize_fold(views_of(comps@), views_of(segs@).skip(j + 1)) == normalize_fold(
                Seq::empty(),
                views_of(segs@),
            ));
        }
        j += 1;
    }
    proof {
        assert(views_of(segs@).skip(segs@.len() as int) =~= Seq::<Seq<char>>::empty());
    }
    comps
}

fn to_strings(comps: &Vec<Vec<char>>) -> (out: Vec<String>)
    ensures
        string_views(out@) == views_of(comps@),
{
    let mut out: Vec<String> = Vec::new();
    let mut k: usize = 0;
    while k < comps.len()
        invariant
            k <= comps@.len(),
            string_views(out@) == views_of(comps@).subrange(0, k as int),
        decreases comps@.len() - k,
    {
        let ghost out_prev = out@;
        out.push(string_of_chars(&comps[k]));
        proof {
            assert(string_views(out@) =~= string_views(out_prev).push(comps@[k as int]@));
            assert(string_views(out@) =~= views_of(comps@).subrange(0, k + 1));
        }
        k += 1;
    }
    proof {
        assert(string_views(out@) =~= views_of(comps@));
    }
    out
}

/// Relies on `std::str::from_utf8`: it succeeds exactly on the byte
/// sequences that are valid UTF-8 and yields the text they encode,
/// character for character; the characters are then collected into a
/// vector unchanged.
#[verifier::external_body]
fn chars_of_utf8(data: &[u8]) -> (r: Option<Vec<char>>)
    ensures
        match r {
            Some(chars) => valid_utf8(data@) && chars@ == decode_utf8(data@),
            None => !valid_utf8(data@),
        },
{
    match std::str::from_utf8(data) {
        Ok(text) => Some(text.chars().collect()),
        Err(_) => None,
    }
}

/// Relies on `String`'s `FromIterator` over `char`: collecting
/// characters builds exactly the string of those characters.
#[verifier::external_body]
fn string_of_chars(chars: &Vec<char>) -> (r: String)
    ensures
        r@ == chars@,
{
    chars.iter().collect()
}

/// Computes the three traversal flags and the normalized component
/// sequence of already-decoded path text.
pub fn analyze_path(chars: &Vec<char>) -> (r: PathAnalysis)
    ensures
        r.has_dot_dot == contains_dot_dot(chars@),
        r.has_absolute == (chars@.len() > 0 && chars@[0] == '/'),
        r.has_null_byte == contains_null(chars@),
        string_views(r.components@) == normalized_components(chars@),
{
    let has_dot_dot = scan_dot_dot(chars);
    let has_absolute = chars.len() > 0 && chars[0] == '/';
    let has_null_byte = scan_null(chars);
    let segs = split_segments(chars);
    let comps = normalize_segments(&segs);
    let components = to_strings(&comps);
    PathAnalysis { has_dot_dot, has_absolute, has_null_byte, components }
}

/// Fuzz entry for the path surface: input decodable as text is
/// analyzed; anything else decodes to nothing. Total on all inputs.
pub fn fuzz_path_parser(data: &[u8]) -> (r: Option<PathAnalysis>)
    ensures
        match r {
            Some(a) => {
                &&& valid_utf8(data@)
                &&& a.has_dot_dot == contains_dot_dot(decode_utf8(data@))
                &&& a.has_absolute == (decode_utf8(data@).len() > 0 && decode_utf8(data@)[0]
                    == '/')
                &&& a.has_null_byte == contains_null(decode_utf8(data@))
                &&& string_views(a.components@) == normalized_components(decode_utf8(data@))
            },
            None => !valid_utf8(data@),
        },
{
    match chars_of_utf8(data) {
        None => None,
        Some(chars) => Some(analyze_path(&chars)),
    }
}

} // verus!
