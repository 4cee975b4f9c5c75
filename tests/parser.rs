use photo_frame::parser::{capture_time, identify, CanonParser, NikonParser, SonyParser};
use photo_frame::resources::Brand;

#[test]
fn brand_parsers_recognise_their_maker() {
    assert!(NikonParser.can_parse("NIKON CORPORATION"));
    assert!(!NikonParser.can_parse("Canon"));
    assert!(SonyParser.can_parse("Sony"));
    assert!(CanonParser.can_parse("Canon"));
    assert_eq!(NikonParser.clean_model("NIKON Z 8"), "Z 8");
    assert_eq!(SonyParser.clean_model("ILCE-7M4"), "α7 IV");
    assert_eq!(SonyParser.clean_model("ILCE-6400"), "6400");
    assert_eq!(CanonParser.clean_model("Canon EOS R5"), "EOS R5");
}

#[test]
fn identify_walks_the_chain_then_guesses() {
    assert_eq!(identify("NIKON CORPORATION", "NIKON Z 8"), (Brand::Nikon, "Z 8".to_string()));
    assert_eq!(identify("SONY", "ILCE-7M4"), (Brand::Sony, "α7 IV".to_string()));
    assert_eq!(identify("Canon", "Canon EOS R5"), (Brand::Canon, "EOS R5".to_string()));
    assert_eq!(identify("FUJIFILM", " X-T5 "), (Brand::Fujifilm, "X-T5".to_string()));
    assert_eq!(identify("Leica Camera AG", "M11"), (Brand::Leica, "M11".to_string()));
    assert_eq!(identify("Hasselblad", "X2D 100C"), (Brand::Hasselblad, "X2D 100C".to_string()));
    assert_eq!(identify("Apple", "iPhone 15 Pro "), (Brand::Other, "iPhone 15 Pro".to_string()));
}

#[test]
fn capture_time_uses_dots() {
    assert_eq!(capture_time("2023:10:01 14:00:05"), "2023.10.01 14.00.05");
}
