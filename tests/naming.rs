use photo_frame::naming::{clean_model_name_logic, clean_param, map_sony_model};
use photo_frame::params::parse_params_smart;

#[test]
fn sony_codes_map_to_marketed_names() {
    assert_eq!(map_sony_model("ILCE-7RM5"), "α7R V");
    assert_eq!(map_sony_model("ilce-7m4"), "α7 IV");
    assert_eq!(map_sony_model("ZV-E1"), "ZV-E1");
    assert_eq!(map_sony_model("ILCE-6400 "), "α6400");
    assert_eq!(map_sony_model("DSC-RX100"), "DSC-RX100");
}

#[test]
fn params_lose_their_units() {
    assert_eq!(clean_param(" 50mm ", "mm"), "50");
    assert_eq!(clean_param("f/2.8", "f/"), "2.8");
    assert_eq!(clean_param("iso 400", "iso"), "400");
}

#[test]
fn parameter_line_is_split_into_fields() {
    let (iso, aperture, shutter, focal) = parse_params_smart("50mm f/1.8 1/800s ISO 100");
    assert_eq!((iso.as_str(), aperture.as_str(), shutter.as_str(), focal.as_str()), ("ISO 100", "f/1.8", "1/800s", "50mm"));
}

#[test]
fn detached_units_attach_to_their_neighbours() {
    let (iso, aperture, shutter, focal) = parse_params_smart("50 mm F2.8 1/250 s iso200");
    assert_eq!((iso.as_str(), aperture.as_str(), shutter.as_str(), focal.as_str()), ("ISO 200", "F2.8", "1/250", "50"));
}

#[test]
fn missing_fields_stay_empty() {
    let (iso, aperture, shutter, focal) = parse_params_smart("  ISO 800 ");
    assert_eq!((iso.as_str(), aperture.as_str(), shutter.as_str(), focal.as_str()), ("ISO 800", "", "", ""));
    let empty = parse_params_smart("");
    assert_eq!(empty, (String::new(), String::new(), String::new(), String::new()));
}

#[test]
fn model_names_lose_their_maker() {
    assert_eq!(clean_model_name_logic("NIKON CORPORATION", "NIKON Z 8"), "Z 8");
    assert_eq!(clean_model_name_logic("Canon", "Canon EOS R5"), "EOS R5");
    assert_eq!(clean_model_name_logic("SONY", "ILCE-7M4"), "α7 IV");
    assert_eq!(clean_model_name_logic("Some Maker", "ILCE-7RM5"), "α7R V");
    assert_eq!(clean_model_name_logic("FUJIFILM", "X-T5"), "X-T5");
    assert_eq!(clean_model_name_logic("NIKON CORPORATION", "Z 9"), "Z 9");
    assert_eq!(clean_model_name_logic("", " EOS R "), "EOS R");
    assert_eq!(clean_model_name_logic("Other", "nikon D850"), "D850");
}
