//! Cleanup of camera model names and shooting parameters for display.

use vstd::prelude::*;
use crate::params::{chars_of, string_of, has_prefix, has_at, has_infix, starts_with, contains};

verus! {

/// `s` in upper case, by the Unicode rules of the standard library.
pub uninterp spec fn upper_of(s: Seq<char>) -> Seq<char>;

/// `s` in lower case, by the Unicode rules of the standard library.
pub uninterp spec fn lower_of(s: Seq<char>) -> Seq<char>;

/// `s` with every non-overlapping occurrence of `from`, scanned left to
/// right, replaced by `to`.
pub uninterp spec fn replaced_of(s: Seq<char>, from: Seq<char>, to: Seq<char>) -> Seq<char>;

/// `s` without leading and trailing Unicode white space.
pub uninterp spec fn trimmed_of(s: Seq<char>) -> Seq<char>;

/// Relies on `str::to_uppercase`: the result depends on the characters alone.
#[verifier::external_body]
pub(crate) fn uppercase(s: &str) -> (r: String)
    ensures
        r@ == upper_of(s@),
{
    s.to_uppercase()
}

/// Relies on `str::to_lowercase`: the result depends on the characters alone.
#[verifier::external_body]
pub(crate) fn lowercase(s: &str) -> (r: String)
    ensures
        r@ == lower_of(s@),
{
    s.to_lowercase()
}

/// Relies on `str::replace`: the result depends on the three strings alone.
#[verifier::external_body]
pub(crate) fn replace_all(s: &str, from: &str, to: &str) -> (r: String)
    ensures
        r@ == replaced_of(s@, from@, to@),
{
    s.replace(from, to)
}

/// Relies on `str::trim`: the result depends on the characters alone.
#[verifier::external_body]
pub(crate) fn trim(s: &str) -> (r: String)
    ensures
        r@ == trimmed_of(s@),
{
    s.trim().to_string()
}

/// Sony's internal model codes and the names printed on the cameras.
pub open spec fn sony_table(code: Seq<char>) -> Option<Seq<char>> {
    if code == "ILCE-1"@ {
        Some("α1"@)
    } else if code == "ILCE-9M3"@ {
        Some("α9 III"@)
    } else if code == "ILCE-9M2"@ {
        Some("α9 II"@)
    } else if code == "ILCE-7RM5"@ {
        Some("α7R V"@)
    } else if code == "ILCE-7RM4"@ {
        Some("α7R IV"@)
    } else if code == "ILCE-7RM3"@ {
        Some("α7R III"@)
    } else if code == "ILCE-7SM3"@ {
        Some("α7S III"@)
    } else if code == "ILCE-7SM2"@ {
        Some("α7S II"@)
    } else if code == "ILCE-7M5"@ {
        Some("α7 V"@)
    } else if code == "ILCE-7M4"@ {
        Some("α7 IV"@)
    } else if code == "ILCE-7M3"@ {
        Some("α7 III"@)
    } else if code == "ILCE-7C"@ {
        Some("α7C"@)
    } else if code == "ILCE-7CM2"@ {
        Some("α7C II"@)
    } else if code == "ILCE-7CR"@ {
        Some("α7CR"@)
    } else if code == "ILCE-6700"@ {
        Some("α6700"@)
    } else if code == "ZV-E1"@ {
        Some("ZV-E1"@)
    } else {
        None
    }
}

fn same(s: &String, lit: &str) -> (b: bool)
    ensures
        b == (s@ == lit@),
{
    *s == lit.to_owned()
}

/// The marketed name of a Sony model code: looked up, case-insensitively, in
/// the table of known bodies; otherwise the code with "ILCE-" turned into
/// "α" and surrounding space removed.
pub open spec fn sony_name(code: Seq<char>) -> Seq<char> {
    match sony_table(upper_of(code)) {
        Some(name) => name,
        None => trimmed_of(replaced_of(code, "ILCE-"@, "α"@)),
    }
}

pub fn map_sony_model(internal_name: &str) -> (r: String)
    ensures
        r@ == sony_name(internal_name@),
{
    let u = uppercase(internal_name);
    match sony_lookup(&u) {
        Some(name) => name,
        None => trim(&replace_all(internal_name, "ILCE-", "α")),
    }
}

/// The marketed name of an upper-case Sony model code, when the table knows
/// it.
pub(crate) fn sony_lookup(u: &String) -> (r: Option<String>)
    ensures
        r is Some <==> sony_table(u@) is Some,
        r matches Some(name) ==> Some(name@) == sony_table(u@),
{
    if same(u, "ILCE-1") {
        return Some("α1".to_owned());
    }
    if same(u, "ILCE-9M3") {
        return Some("α9 III".to_owned());
    }
    if same(u, "ILCE-9M2") {
        return Some("α9 II".to_owned());
    }
    if same(u, "ILCE-7RM5") {
        return Some("α7R V".to_owned());
    }
    if same(u, "ILCE-7RM4") {
        return Some("α7R IV".to_owned());
    }
    if same(u, "ILCE-7RM3") {
        return Some("α7R III".to_owned());
    }
    if same(u, "ILCE-7SM3") {
        return Some("α7S III".to_owned());
    }
    if same(u, "ILCE-7SM2") {
        return Some("α7S II".to_owned());
    }
    if same(u, "ILCE-7M5") {
        return Some("α7 V".to_owned());
    }
    if same(u, "ILCE-7M4") {
        return Some("α7 IV".to_owned());
    }
    if same(u, "ILCE-7M3") {
        return Some("α7 III".to_owned());
    }
    if same(u, "ILCE-7C") {
        return Some("α7C".to_owned());
    }
    if same(u, "ILCE-7CM2") {
        return Some("α7C II".to_owned());
    }
    if same(u, "ILCE-7CR") {
        return Some("α7CR".to_owned());
    }
    if same(u, "ILCE-6700") {
        return Some("α6700".to_owned());
    }
    if same(u, "ZV-E1") {
        return Some("ZV-E1".to_owned());
    }
    None

}

/// A parameter prepared for display: upper-cased, with the unit `remove`
/// taken out in either case, and trimmed.
pub fn clean_param(raw: &str, remove: &str) -> (r: String)
    ensures
        r@ == trimmed_of(
            replaced_of(
                replaced_of(upper_of(raw@), upper_of(remove@), ""@),
                lower_of(remove@),
                ""@,
            ),
        ),
{
    let upper = uppercase(raw);
    let up_unit = uppercase(remove);
    let low_unit = lowercase(remove);
    let a = replace_all(upper.as_str(), up_unit.as_str(), "");
    let b = replace_all(a.as_str(), low_unit.as_str(), "");
    trim(b.as_str())
}

/// Where `q` first occurs in `s`, when it occurs.
pub open spec fn is_first_match(s: Seq<char>, q: Seq<char>, i: int) -> bool {
    &&& 0 <= i
    &&& i + q.len() <= s.len()
    &&& s.subrange(i, i + q.len()) == q
    &&& forall|j: int| 0 <= j < i ==> #[trigger] s.subrange(j, j + q.len()) != q
}

pub open spec fn first_match(s: Seq<char>, q: Seq<char>) -> int {
    choose|i: int| is_first_match(s, q, i)
}

/// `s` from character `start` on; empty when `start` lies past its end.
pub open spec fn tail_from(s: Seq<char>, start: int) -> Seq<char> {
    if start <= s.len() { s.subrange(start, s.len() as int) } else { Seq::empty() }
}

/// The model name without its maker: Sony codes are mapped to marketed
/// names; otherwise the maker's name (without "CORPORATION") is cut off
/// together with everything before it, and a leading "NIKON" as well.
pub open spec fn model_name(make: Seq<char>, model: Seq<char>) -> Seq<char> {
    let make_clean = upper_of(trimmed_of(replaced_of(make, "CORPORATION"@, ""@)));
    let model_upper = upper_of(model);
    if contains(make_clean, "SONY"@) || starts_with(model_upper, "ILCE"@) {
        sony_name(model_upper)
    } else {
        let base = if contains(model_upper, make_clean) {
            trimmed_of(tail_from(model, first_match(model_upper, make_clean) + make_clean.len()))
        } else {
            model
        };
        if starts_with(upper_of(base), "NIKON"@) {
            trimmed_of(tail_from(base, 5))
        } else {
            base
        }
    }
}

proof fn lemma_first_match_unique(s: Seq<char>, q: Seq<char>, i: int)
    requires
        is_first_match(s, q, i),
    ensures
        first_match(s, q) == i,
{
    let k = first_match(s, q);
    assert(is_first_match(s, q, k));
    if k < i {
        assert(s.subrange(k, k + q.len()) != q);
    } else if i < k {
        assert(s.subrange(i, i + q.len()) != q);
    }
}

fn find_first(s: &Vec<char>, q: &Vec<char>) -> (r: Option<usize>)
    ensures
        r is Some <==> contains(s@, q@),
        r matches Some(i) ==> is_first_match(s@, q@, i as int) && first_match(s@, q@) == i,
{
    if q.len() > s.len() {
        return None;
    }
    let last = s.len() - q.len();
    let mut i: usize = 0;
    while i <= last
        invariant
            last + q@.len() == s@.len(),
            forall|j: int| 0 <= j < i ==> #[trigger] s@.subrange(j, j + q@.len()) != q@,
        decreases last + 1 - i,
    {
        if has_at(s, q, i) {
            proof {
                lemma_first_match_unique(s@, q@, i as int);
            }
            return Some(i);
        }
        if i == last {
            return None;
        }
        i = i + 1;
    }
    None
}

fn tail(s: &Vec<char>, start: usize) -> (r: Vec<char>)
    ensures
        r@ == tail_from(s@, start as int),
{
    let mut r: Vec<char> = Vec::new();
    if start > s.len() {
        return r;
    }
    let mut i: usize = start;
    while i < s.len()
        invariant
            start <= i <= s@.len(),
            r@ == s@.subrange(start as int, i as int),
        decreases s@.len() - i,
    {
        r.push(s[i]);
        i = i + 1;
        assert(r@ =~= s@.subrange(start as int, i as int));
    }
    r
}

/// The display name of a camera model given its maker and model tags.
pub fn clean_model_name_logic(make: &str, model: &str) -> (r: String)
    ensures
        r@ == model_name(make@, model@),
{
    let make_clean = uppercase(trim(replace_all(make, "CORPORATION", "").as_str()).as_str());
    let model_upper = uppercase(model);
    let mc = chars_of(make_clean.as_str());
    let mu = chars_of(model_upper.as_str());
    if has_infix(&mc, &chars_of("SONY")) || has_prefix(&mu, &chars_of("ILCE")) {
        return map_sony_model(model_upper.as_str());
    }
    let base: String = match find_first(&mu, &mc) {
        Some(idx) => {
            let _n = mu.len();
            let start = idx + mc.len();
            trim(string_of(&tail(&chars_of(model), start)).as_str())
        },
        None => string_of(&chars_of(model)),
    };
    let base_upper = chars_of(uppercase(base.as_str()).as_str());
    if has_prefix(&base_upper, &chars_of("NIKON")) {
        trim(string_of(&tail(&chars_of(base.as_str()), 5)).as_str())
    } else {
        base
    }
}

} // verus!
