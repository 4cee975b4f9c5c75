use photo_frame::models::AppState;
use photo_frame::resources::{AssetTable, Brand, FontFamily, FontKey, FontWeight, LogoKey, LogoType};
use std::sync::Arc;
use std::sync::atomic::Ordering;

#[test]
fn font_files_by_family_and_weight() {
    let f = |family, weight| FontKey { family, weight }.filename();
    assert_eq!(f(FontFamily::InterDisplay, FontWeight::Bold), "InterDisplay-Bold.otf");
    assert_eq!(f(FontFamily::InterDisplay, FontWeight::Medium), "InterDisplay-Medium.otf");
    assert_eq!(f(FontFamily::InterDisplay, FontWeight::Regular), "InterDisplay-Regular.otf");
    assert_eq!(f(FontFamily::MrDafoe, FontWeight::Bold), "MrDafoe-Regular.ttf");
    assert_eq!(f(FontFamily::AbhayaLibre, FontWeight::Regular), "AbhayaLibre-Medium.ttf");
}

#[test]
fn only_shipped_logos_have_files() {
    let k = |brand, l_type| LogoKey { brand, l_type }.asset_file();
    assert_eq!(k(Brand::Nikon, LogoType::Wordmark), Some("Nikon-word.png"));
    assert_eq!(k(Brand::Nikon, LogoType::SymbolZ), Some("Z.png"));
    assert_eq!(k(Brand::Nikon, LogoType::IconYellowBox), Some("Nikon.png"));
    assert_eq!(k(Brand::Sony, LogoType::Wordmark), None);
    assert_eq!(k(Brand::Leica, LogoType::IconRedDot), None);
}

#[test]
fn brand_names() {
    assert_eq!(Brand::Nikon.name(), "Nikon");
    assert_eq!(Brand::Hasselblad.name(), "Hasselblad");
    assert_eq!(Brand::Other.name(), "Unknown");
}

#[test]
fn app_state_starts_running() {
    let s = AppState::new();
    assert!(!s.should_stop.load(Ordering::Relaxed));
}

#[test]
fn asset_table_stores_and_replaces() {
    let bold = FontKey { family: FontFamily::InterDisplay, weight: FontWeight::Bold };
    let script = FontKey { family: FontFamily::MrDafoe, weight: FontWeight::Regular };
    let logo = LogoKey { brand: Brand::Nikon, l_type: LogoType::Wordmark };
    let mut t: AssetTable<Arc<Vec<u8>>> = AssetTable::new();
    assert!(t.get(bold.code()).is_none());
    t.insert(bold.code(), Arc::new(vec![1, 2, 3]));
    t.insert(script.code(), Arc::new(vec![4]));
    assert_eq!(t.get(bold.code()).map(|v| v.as_slice()), Some(&[1u8, 2, 3][..]));
    t.insert(bold.code(), Arc::new(vec![9]));
    assert_eq!(t.get(bold.code()).map(|v| v.as_slice()), Some(&[9u8][..]));
    assert_eq!(t.get(script.code()).map(|v| v.as_slice()), Some(&[4u8][..]));
    assert!(t.get(logo.code()).is_none());
}

#[test]
fn key_codes_are_distinct() {
    let families = [FontFamily::InterDisplay, FontFamily::MrDafoe, FontFamily::AbhayaLibre];
    let weights = [FontWeight::Regular, FontWeight::Medium, FontWeight::Bold];
    let mut codes = Vec::new();
    for f in families {
        for w in weights {
            codes.push(FontKey { family: f, weight: w }.code());
        }
    }
    codes.push(LogoKey { brand: Brand::Other, l_type: LogoType::SymbolX }.code());
    codes.push(LogoKey { brand: Brand::Nikon, l_type: LogoType::Wordmark }.code());
    let n = codes.len();
    codes.sort();
    codes.dedup();
    assert_eq!(codes.len(), n);
}
