//! Keys of the shared asset tables: logos by brand and kind, fonts by family
//! and weight. The tables themselves are loaded once by the caller and passed
//! in; the engine only names what it needs.

use vstd::prelude::*;
use std::collections::HashMap;

verus! {

/// Camera makers with their own frame artwork.
#[derive(Clone, Copy, Debug, PartialEq, Eq, Hash, Structural)]
pub enum Brand {
    Nikon,
    Sony,
    Canon,
    Fujifilm,
    Leica,
    Hasselblad,
    Other,
}

pub open spec fn brand_name(b: Brand) -> Seq<char> {
    match b {
        Brand::Nikon => "Nikon"@,
        Brand::Sony => "Sony"@,
        Brand::Canon => "Canon"@,
        Brand::Fujifilm => "Fujifilm"@,
        Brand::Leica => "Leica"@,
        Brand::Hasselblad => "Hasselblad"@,
        Brand::Other => "Unknown"@,
    }
}

impl Brand {
    /// The brand as it is printed on a frame.
    pub fn name(&self) -> (s: &'static str)
        ensures
            s@ == brand_name(*self),
    {
        match self {
            Brand::Nikon => "Nikon",
            Brand::Sony => "Sony",
            Brand::Canon => "Canon",
            Brand::Fujifilm => "Fujifilm",
            Brand::Leica => "Leica",
            Brand::Hasselblad => "Hasselblad",
            Brand::Other => "Unknown",
        }
    }
}

/// The kinds of logo artwork a brand may have.
#[derive(Clone, Copy, Debug, PartialEq, Eq, Hash, Structural)]
pub enum LogoType {
    Wordmark,
    WordmarkVertical,
    IconYellowBox,
    SymbolZ,
    SymbolAlpha,
    SymbolGMaster,
    IconRedDot,
    IconBlackDot,
    SymbolGFX,
    SymbolX,
}

/// A logo table key.
#[derive(Clone, Copy, Debug, PartialEq, Eq, Hash, Structural)]
pub struct LogoKey {
    pub brand: Brand,
    pub l_type: LogoType,
}

/// The asset file of a logo, for the logos that ship.
pub open spec fn logo_file(k: LogoKey) -> Option<Seq<char>> {
    match (k.brand, k.l_type) {
        (Brand::Nikon, LogoType::Wordmark) => Some("Nikon-word.png"@),
        (Brand::Nikon, LogoType::SymbolZ) => Some("Z.png"@),
        (Brand::Nikon, LogoType::IconYellowBox) => Some("Nikon.png"@),
        _ => None,
    }
}

impl LogoKey {
    /// The asset file holding this logo; `None` when the brand has no such
    /// artwork, in which case the frame is drawn without it.
    pub fn asset_file(&self) -> (r: Option<&'static str>)
        ensures
            r is Some <==> logo_file(*self) is Some,
            r matches Some(s) ==> Some(s@) == logo_file(*self),
    {
        match (self.brand, self.l_type) {
            (Brand::Nikon, LogoType::Wordmark) => Some("Nikon-word.png"),
            (Brand::Nikon, LogoType::SymbolZ) => Some("Z.png"),
            (Brand::Nikon, LogoType::IconYellowBox) => Some("Nikon.png"),
            _ => None,
        }
    }
}

#[derive(Clone, Copy, Debug, PartialEq, Eq, Hash, Structural)]
pub enum FontFamily {
    InterDisplay,
    MrDafoe,
    AbhayaLibre,
}

#[derive(Clone, Copy, Debug, PartialEq, Eq, Hash, Structural)]
pub enum FontWeight {
    Regular,
    Medium,
    Bold,
}

/// A font table key.
#[derive(Clone, Copy, Debug, PartialEq, Eq, Hash, Structural)]
pub struct FontKey {
    pub family: FontFamily,
    pub weight: FontWeight,
}

/// The font file for a family and weight: the sans family has three
/// weights, the script and serif families one file each.
pub open spec fn font_file(k: FontKey) -> Seq<char> {
    match (k.family, k.weight) {
        (FontFamily::InterDisplay, FontWeight::Bold) => "InterDisplay-Bold.otf"@,
        (FontFamily::InterDisplay, FontWeight::Medium) => "InterDisplay-Medium.otf"@,
        (FontFamily::InterDisplay, _) => "InterDisplay-Regular.otf"@,
        (FontFamily::MrDafoe, _) => "MrDafoe-Regular.ttf"@,
        (FontFamily::AbhayaLibre, _) => "AbhayaLibre-Medium.ttf"@,
    }
}

impl FontKey {
    pub fn filename(&self) -> (s: &'static str)
        ensures
            s@ == font_file(*self),
    {
        match (self.family, self.weight) {
            (FontFamily::InterDisplay, FontWeight::Bold) => "InterDisplay-Bold.otf",
            (FontFamily::InterDisplay, FontWeight::Medium) => "InterDisplay-Medium.otf",
            (FontFamily::InterDisplay, _) => "InterDisplay-Regular.otf",
            (FontFamily::MrDafoe, _) => "MrDafoe-Regular.ttf",
            (FontFamily::AbhayaLibre, _) => "AbhayaLibre-Medium.ttf",
        }
    }
}

/// Assets loaded once and shared, keyed by the code of a [`FontKey`] or a
/// [`LogoKey`].
pub struct AssetTable<V> {
    map: HashMap<u32, V>,
}

impl<V> AssetTable<V> {
    /// What the table holds.
    pub closed spec fn view(&self) -> Map<u32, V> {
        self.map@
    }

    pub fn new() -> (t: Self)
        ensures
            t@ == Map::<u32, V>::empty(),
    {
        AssetTable { map: HashMap::new() }
    }

    /// The asset stored under `key`, if it has been loaded.
    pub fn get(&self, key: u32) -> (r: Option<&V>)
        ensures
            r is Some <==> self@.contains_key(key),
            r matches Some(v) ==> *v == self@[key],
    {
        broadcast use vstd::std_specs::hash::group_hash_axioms;
        self.map.get(&key)
    }

    /// Stores `value` under `key`, replacing what was there.
    pub fn insert(&mut self, key: u32, value: V)
        ensures
            final(self)@ == old(self)@.insert(key, value),
    {
        broadcast use vstd::std_specs::hash::group_hash_axioms;
        self.map.insert(key, value);
    }
}

/// A code for each font key; distinct keys get distinct codes.
pub open spec fn font_code(k: FontKey) -> u32 {
    let f: u32 = match k.family {
        FontFamily::InterDisplay => 0,
        FontFamily::MrDafoe => 1,
        FontFamily::AbhayaLibre => 2,
    };
    let w: u32 = match k.weight {
        FontWeight::Regular => 0,
        FontWeight::Medium => 1,
        FontWeight::Bold => 2,
    };
    (f * 4 + w) as u32
}

pub open spec fn brand_index(b: Brand) -> u32 {
    match b {
        Brand::Nikon => 0,
        Brand::Sony => 1,
        Brand::Canon => 2,
        Brand::Fujifilm => 3,
        Brand::Leica => 4,
        Brand::Hasselblad => 5,
        Brand::Other => 6,
    }
}

pub open spec fn logo_index(t: LogoType) -> u32 {
    match t {
        LogoType::Wordmark => 0,
        LogoType::WordmarkVertical => 1,
        LogoType::IconYellowBox => 2,
        LogoType::SymbolZ => 3,
        LogoType::SymbolAlpha => 4,
        LogoType::SymbolGMaster => 5,
        LogoType::IconRedDot => 6,
        LogoType::IconBlackDot => 7,
        LogoType::SymbolGFX => 8,
        LogoType::SymbolX => 9,
    }
}

/// A code for each logo key, in a range apart from the font codes; distinct
/// keys get distinct codes.
pub open spec fn logo_code(k: LogoKey) -> u32 {
    (256 + brand_index(k.brand) * 16 + logo_index(k.l_type)) as u32
}

impl FontKey {
    /// This key's code in an [`AssetTable`].
    pub fn code(&self) -> (c: u32)
        ensures
            c == font_code(*self),
    {
        let f: u32 = match self.family {
            FontFamily::InterDisplay => 0,
            FontFamily::MrDafoe => 1,
            FontFamily::AbhayaLibre => 2,
        };
        let w: u32 = match self.weight {
            FontWeight::Regular => 0,
            FontWeight::Medium => 1,
            FontWeight::Bold => 2,
        };
        f * 4 + w
    }
}

impl LogoKey {
    /// This key's code in an [`AssetTable`].
    pub fn code(&self) -> (c: u32)
        ensures
            c == logo_code(*self),
    {
        let b: u32 = match self.brand {
            Brand::Nikon => 0,
            Brand::Sony => 1,
            Brand::Canon => 2,
            Brand::Fujifilm => 3,
            Brand::Leica => 4,
            Brand::Hasselblad => 5,
            Brand::Other => 6,
        };
        let t: u32 = match self.l_type {
            LogoType::Wordmark => 0,
            LogoType::WordmarkVertical => 1,
            LogoType::IconYellowBox => 2,
            LogoType::SymbolZ => 3,
            LogoType::SymbolAlpha => 4,
            LogoType::SymbolGMaster => 5,
            LogoType::IconRedDot => 6,
            LogoType::IconBlackDot => 7,
            LogoType::SymbolGFX => 8,
            LogoType::SymbolX => 9,
        };
        256 + b * 16 + t
    }
}

/// Codes never collide: not between two font keys, not between two logo
/// keys, and not between a font key and a logo key.
pub proof fn lemma_codes_distinct(f1: FontKey, f2: FontKey, l1: LogoKey, l2: LogoKey)
    ensures
        font_code(f1) == font_code(f2) ==> f1 == f2,
        logo_code(l1) == logo_code(l2) ==> l1 == l2,
        font_code(f1) != logo_code(l1),
{
}

} // verus!