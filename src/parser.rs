//! Recognising the camera maker from the EXIF strings and cleaning the model
//! name the way that maker writes it: a chain of brand parsers, each asked in
//! turn whether it knows the maker, with a generic fallback.

use vstd::prelude::*;
use crate::naming::{upper_of, replaced_of, trimmed_of, sony_table, uppercase, replace_all, trim};
use crate::params::{chars_of, has_infix, contains};
use crate::resources::Brand;

verus! {

/// Whether the upper-cased maker tag mentions `name`.
pub open spec fn make_mentions(make: Seq<char>, name: Seq<char>) -> bool {
    contains(upper_of(make), name)
}

fn mentions(make: &str, name: &str) -> (b: bool)
    ensures
        b == make_mentions(make@, name@),
{
    let up = chars_of(uppercase(make).as_str());
    has_infix(&up, &chars_of(name))
}

/// Nikon bodies: "NIKON Z 8" is shown as "Z 8".
pub struct NikonParser;

/// Sony bodies: internal codes such as "ILCE-7M4" are shown as "α7 IV".
pub struct SonyParser;

/// Canon bodies: "Canon EOS R5" is shown as "EOS R5".
pub struct CanonParser;

pub open spec fn nikon_model(model: Seq<char>) -> Seq<char> {
    trimmed_of(replaced_of(model, "NIKON"@, ""@))
}

pub open spec fn sony_model(model: Seq<char>) -> Seq<char> {
    match sony_table(upper_of(model)) {
        Some(name) => name,
        None => trimmed_of(replaced_of(model, "ILCE-"@, ""@)),
    }
}

pub open spec fn canon_model(model: Seq<char>) -> Seq<char> {
    trimmed_of(replaced_of(model, "Canon"@, ""@))
}

impl NikonParser {
    pub fn can_parse(&self, make: &str) -> (b: bool)
        ensures
            b == make_mentions(make@, "NIKON"@),
    {
        mentions(make, "NIKON")
    }

    pub fn clean_model(&self, model: &str) -> (r: String)
        ensures
            r@ == nikon_model(model@),
    {
        trim(replace_all(model, "NIKON", "").as_str())
    }
}

impl SonyParser {
    pub fn can_parse(&self, make: &str) -> (b: bool)
        ensures
            b == make_mentions(make@, "SONY"@),
    {
        mentions(make, "SONY")
    }

    pub fn clean_model(&self, model: &str) -> (r: String)
        ensures
            r@ == sony_model(model@),
    {
        let up = uppercase(model);
        match crate::naming::sony_lookup(&up) {
            Some(name) => name,
            None => trim(replace_all(model, "ILCE-", "").as_str()),
        }
    }
}

impl CanonParser {
    pub fn can_parse(&self, make: &str) -> (b: bool)
        ensures
            b == make_mentions(make@, "CANON"@),
    {
        mentions(make, "CANON")
    }

    pub fn clean_model(&self, model: &str) -> (r: String)
        ensures
            r@ == canon_model(model@),
    {
        trim(replace_all(model, "Canon", "").as_str())
    }
}

/// The brand and display model for a maker and model tag: the first brand
/// parser that knows the maker cleans the model; otherwise the brand is
/// guessed from the maker and the model is only trimmed.
pub open spec fn identified(make: Seq<char>, model: Seq<char>) -> (Brand, Seq<char>) {
    if make_mentions(make, "NIKON"@) {
        (Brand::Nikon, nikon_model(model))
    } else if make_mentions(make, "SONY"@) {
        (Brand::Sony, sony_model(model))
    } else if make_mentions(make, "CANON"@) {
        (Brand::Canon, canon_model(model))
    } else if make_mentions(make, "FUJI"@) {
        (Brand::Fujifilm, trimmed_of(model))
    } else if make_mentions(make, "LEICA"@) {
        (Brand::Leica, trimmed_of(model))
    } else if make_mentions(make, "HASSELBLAD"@) {
        (Brand::Hasselblad, trimmed_of(model))
    } else {
        (Brand::Other, trimmed_of(model))
    }
}

pub fn identify(make: &str, model: &str) -> (r: (Brand, String))
    ensures
        r.0 == identified(make@, model@).0,
        r.1@ == identified(make@, model@).1,
{
    if NikonParser.can_parse(make) {
        (Brand::Nikon, NikonParser.clean_model(model))
    } else if SonyParser.can_parse(make) {
        (Brand::Sony, SonyParser.clean_model(model))
    } else if CanonParser.can_parse(make) {
        (Brand::Canon, CanonParser.clean_model(model))
    } else if mentions(make, "FUJI") {
        (Brand::Fujifilm, trim(model))
    } else if mentions(make, "LEICA") {
        (Brand::Leica, trim(model))
    } else if mentions(make, "HASSELBLAD") {
        (Brand::Hasselblad, trim(model))
    } else {
        (Brand::Other, trim(model))
    }
}

/// The capture time as printed: "2023:10:01 14:00" becomes
/// "2023.10.01 14.00".
pub fn capture_time(datetime: &str) -> (r: String)
    ensures
        r@ == replaced_of(datetime@, ":"@, "."@),
{
    replace_all(datetime, ":", ".")
}

} // verus!
