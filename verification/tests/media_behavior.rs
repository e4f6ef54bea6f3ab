use baml_core::media::BamlImagePy;

#[test]
fn url_images_round_trip_their_url() {
    let img = BamlImagePy::from_url("https://example.com/a.png".to_string());
    assert!(img.is_url());
    assert_eq!(img.as_url(), Ok("https://example.com/a.png".to_string()));
    assert_eq!(img.as_base64(), Err("Image is not base64".to_string()));
    assert_eq!(
        img.__repr__(),
        "BamlImagePy(url=https://example.com/a.png)".to_string()
    );
}

#[test]
fn base64_images_expose_data_and_mime_type() {
    let img = BamlImagePy::from_base64("image/png".to_string(), "aGk=".to_string());
    assert!(!img.is_url());
    assert_eq!(img.as_url(), Err("Image is not a URL".to_string()));
    assert_eq!(
        img.as_base64(),
        Ok(vec!["aGk=".to_string(), "image/png".to_string()])
    );
    assert_eq!(
        img.__repr__(),
        "BamlImagePy(base64=aGk=, media_type=image/png)".to_string()
    );
}

#[test]
fn image_equality_compares_contents() {
    let a = BamlImagePy::from_url("https://example.com/a.png".to_string());
    let b = BamlImagePy::from_url("https://example.com/a.png".to_string());
    let c = BamlImagePy::from_url("https://example.com/c.png".to_string());
    let d = BamlImagePy::from_base64("image/png".to_string(), "aGk=".to_string());
    assert!(a.__eq__(&b));
    assert!(!a.__eq__(&c));
    assert!(!a.__eq__(&d));
    let e = BamlImagePy::from_base64("image/png".to_string(), "aGk=".to_string());
    assert!(d.__eq__(&e));
}
