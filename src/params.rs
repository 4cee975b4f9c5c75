//! Splitting a free-form parameter line ("50mm f/1.8 1/800s ISO 100") into
//! ISO, aperture, shutter and focal length for the title-card layout.

use vstd::prelude::*;
use crate::naming::{lower_of, replaced_of, lowercase, replace_all};

verus! {

/// The white-space separated words of `s`.
pub uninterp spec fn words_of(s: Seq<char>) -> Seq<Seq<char>>;

/// Whether `c` is numeric in the sense of Unicode.
pub uninterp spec fn numeric(c: char) -> bool;

/// Relies on `str::split_whitespace`: the words depend on the characters
/// alone.
#[verifier::external_body]
fn split_words(s: &str) -> (r: Vec<String>)
    ensures
        r@.len() == words_of(s@).len(),
        forall|i: int| 0 <= i < r@.len() ==> #[trigger] r@[i]@ == words_of(s@)[i],
{
    s.split_whitespace().map(|w| w.to_string()).collect()
}

/// Relies on `char::is_numeric`.
#[verifier::external_body]
fn is_numeric(c: char) -> (b: bool)
    ensures
        b == numeric(c),
{
    c.is_numeric()
}

/// Relies on `str::chars`: a string is the sequence of its characters.
#[verifier::external_body]
pub(crate) fn chars_of(s: &str) -> (r: Vec<char>)
    ensures
        r@ == s@,
{
    s.chars().collect()
}

/// Relies on collecting characters into a `String`, which keeps them in
/// order.
#[verifier::external_body]
pub(crate) fn string_of(v: &Vec<char>) -> (r: String)
    ensures
        r@ == v@,
{
    v.iter().collect()
}

pub open spec fn starts_with(s: Seq<char>, q: Seq<char>) -> bool {
    q.len() <= s.len() && s.subrange(0, q.len() as int) == q
}

pub open spec fn ends_with(s: Seq<char>, q: Seq<char>) -> bool {
    q.len() <= s.len() && s.subrange(s.len() - q.len(), s.len() as int) == q
}

pub open spec fn contains(s: Seq<char>, q: Seq<char>) -> bool {
    exists|i: int| 0 <= i && i + q.len() <= s.len() && #[trigger] s.subrange(i, i + q.len()) == q
}

pub open spec fn all_numeric(s: Seq<char>) -> bool {
    forall|i: int| 0 <= i < s.len() ==> numeric(#[trigger] s[i])
}

/// ISO, aperture, shutter and focal length, in that order.
pub type Params = (Seq<char>, Seq<char>, Seq<char>, Seq<char>);

/// What word `i` of `words` makes of the parameters found so far: each rule
/// may overwrite one field, the first rule that applies wins, and a later
/// word overwrites an earlier one.
pub open spec fn read_word(words: Seq<Seq<char>>, i: int, st: Params) -> Params {
    let part = words[i];
    let p = lower_of(part);
    if p == "mm"@ {
        if i > 0 { (st.0, st.1, st.2, words[i - 1]) } else { st }
    } else if ends_with(p, "mm"@) {
        (st.0, st.1, st.2, part)
    } else if starts_with(p, "f/"@) || (starts_with(p, "f"@) && p.len() > 1 && numeric(p[1])) {
        (st.0, part, st.2, st.3)
    } else if p == "s"@ {
        if i > 0 { (st.0, st.1, words[i - 1], st.3) } else { st }
    } else if ends_with(p, "s"@) && !contains(p, "iso"@) {
        (st.0, st.1, part, st.3)
    } else if contains(p, "1/"@) {
        (st.0, st.1, part, st.3)
    } else if p == "iso"@ {
        if i + 1 < words.len() { ("ISO "@ + words[i + 1], st.1, st.2, st.3) } else { st }
    } else if starts_with(p, "iso"@) {
        let v = replaced_of(p, "iso"@, ""@);
        if v.len() > 0 { ("ISO "@ + v, st.1, st.2, st.3) } else { st }
    } else if all_numeric(part) {
        ("ISO "@ + part, st.1, st.2, st.3)
    } else {
        st
    }
}

/// The parameters found in the first `n` words.
pub open spec fn read_words(words: Seq<Seq<char>>, n: nat) -> Params
    decreases n,
{
    if n == 0 {
        (Seq::empty(), Seq::empty(), Seq::empty(), Seq::empty())
    } else {
        read_word(words, n - 1, read_words(words, (n - 1) as nat))
    }
}

pub(crate) fn has_prefix(s: &Vec<char>, q: &Vec<char>) -> (b: bool)
    ensures
        b == starts_with(s@, q@),
{
    if q.len() > s.len() {
        return false;
    }
    let mut i: usize = 0;
    while i < q.len()
        invariant
            q@.len() <= s@.len(),
            i <= q@.len(),
            forall|j: int| 0 <= j < i ==> s@[j] == q@[j],
        decreases q@.len() - i,
    {
        if s[i] != q[i] {
            assert(s@.subrange(0, q@.len() as int)[i as int] != q@[i as int]);
            return false;
        }
        i = i + 1;
    }
    assert(s@.subrange(0, q@.len() as int) =~= q@);
    true
}

pub(crate) fn has_at(s: &Vec<char>, q: &Vec<char>, at: usize) -> (b: bool)
    requires
        at + q@.len() <= s@.len(),
    ensures
        b == (s@.subrange(at as int, at + q@.len()) == q@),
{
    let _n = s.len();
    let mut i: usize = 0;
    while i < q.len()
        invariant
            at + q@.len() <= s@.len(),
            s@.len() <= usize::MAX,
            i <= q@.len(),
            forall|j: int| 0 <= j < i ==> s@[at + j] == q@[j],
        decreases q@.len() - i,
    {
        if s[at + i] != q[i] {
            assert(s@.subrange(at as int, at + q@.len())[i as int] != q@[i as int]);
            return false;
        }
        i = i + 1;
    }
    assert(s@.subrange(at as int, at + q@.len()) =~= q@);
    true
}

fn has_suffix(s: &Vec<char>, q: &Vec<char>) -> (b: bool)
    ensures
        b == ends_with(s@, q@),
{
    if q.len() > s.len() {
        return false;
    }
    has_at(s, q, s.len() - q.len())
}

pub(crate) fn has_infix(s: &Vec<char>, q: &Vec<char>) -> (b: bool)
    ensures
        b == contains(s@, q@),
{
    if q.len() > s.len() {
        return false;
    }
    let last = s.len() - q.len();
    let mut i: usize = 0;
    while i < last
        invariant
            i <= last,
            last + q@.len() == s@.len(),
            forall|j: int| 0 <= j < i ==> #[trigger] s@.subrange(j, j + q@.len()) != q@,
        decreases last - i,
    {
        if has_at(s, q, i) {
            return true;
        }
        i = i + 1;
    }
    has_at(s, q, last)
}

pub(crate) fn same_chars(s: &Vec<char>, lit: &str) -> (b: bool)
    ensures
        b == (s@ == lit@),
{
    let q = chars_of(lit);
    let b = q.len() == s.len() && has_prefix(s, &q);
    assert(s@.subrange(0, s@.len() as int) =~= s@);
    b
}

fn numeric_word(s: &Vec<char>) -> (b: bool)
    ensures
        b == all_numeric(s@),
{
    let mut i: usize = 0;
    while i < s.len()
        invariant
            i <= s@.len(),
            forall|j: int| 0 <= j < i ==> numeric(#[trigger] s@[j]),
        decreases s@.len() - i,
    {
        if !is_numeric(s[i]) {
            return false;
        }
        i = i + 1;
    }
    true
}

fn iso_label(v: &Vec<char>) -> (r: Vec<char>)
    ensures
        r@ == "ISO "@ + v@,
{
    let mut r = chars_of("ISO ");
    let mut i: usize = 0;
    let ghost start = r@;
    while i < v.len()
        invariant
            i <= v@.len(),
            r@ == start + v@.subrange(0, i as int),
        decreases v@.len() - i,
    {
        r.push(v[i]);
        i = i + 1;
        assert(r@ =~= start + v@.subrange(0, i as int));
    }
    assert(v@.subrange(0, v@.len() as int) =~= v@);
    r
}

/// Reads ISO, aperture, shutter and focal length out of a free-form
/// parameter line, word by word: "mm" and "s" attach the unit to the word
/// before, "ISO" takes the word after, bare numbers are ISO values, and a
/// later word overrides an earlier one. A field no word sets stays empty.
pub fn parse_params_smart(params: &str) -> (r: (String, String, String, String))
    ensures
        ({
            let words = words_of(params@);
            let st = read_words(words, words.len());
            r.0@ == st.0 && r.1@ == st.1 && r.2@ == st.2 && r.3@ == st.3
        }),
{
    let parts = split_words(params);
    let ghost words = words_of(params@);
    let mut iso: Vec<char> = Vec::new();
    let mut aperture: Vec<char> = Vec::new();
    let mut shutter: Vec<char> = Vec::new();
    let mut focal: Vec<char> = Vec::new();
    let mut i: usize = 0;
    while i < parts.len()
        invariant
            i <= parts@.len(),
            parts@.len() == words.len(),
            forall|j: int| 0 <= j < parts@.len() ==> #[trigger] parts@[j]@ == words[j],
            (iso@, aperture@, shutter@, focal@) == read_words(words, i as nat),
        decreases parts@.len() - i,
    {
        let part = chars_of(parts[i].as_str());
        let lower = lowercase(parts[i].as_str());
        let p = chars_of(lower.as_str());
        proof {
            assert(part@ == words[i as int]);
            assert(p@ == lower_of(words[i as int]));
        }
        if same_chars(&p, "mm") {
            if i > 0 {
                focal = chars_of(parts[i - 1].as_str());
            }
        } else if has_suffix(&p, &chars_of("mm")) {
            focal = part;
        } else if has_prefix(&p, &chars_of("f/")) || (has_prefix(&p, &chars_of("f")) && p.len() > 1 && is_numeric(
            p[1],
        )) {
            aperture = part;
        } else if same_chars(&p, "s") {
            if i > 0 {
                shutter = chars_of(parts[i - 1].as_str());
            }
        } else if has_suffix(&p, &chars_of("s")) && !has_infix(&p, &chars_of("iso")) {
            shutter = part;
        } else if has_infix(&p, &chars_of("1/")) {
            shutter = part;
        } else if same_chars(&p, "iso") {
            if i + 1 < parts.len() {
                iso = iso_label(&chars_of(parts[i + 1].as_str()));
            }
        } else if has_prefix(&p, &chars_of("iso")) {
            let v = chars_of(replace_all(lower.as_str(), "iso", "").as_str());
            if v.len() > 0 {
                iso = iso_label(&v);
            }
        } else if numeric_word(&part) {
            iso = iso_label(&part);
        }
        i = i + 1;
    }
    (string_of(&iso), string_of(&aperture), string_of(&shutter), string_of(&focal))
}

} // verus!
