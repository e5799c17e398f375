use devkit::platform::current_platform_tag;
use devkit::platform::download_url;
use devkit::platform::platform_tag_of;

#[test]
fn kernel_names_map_to_tags() {
    assert_eq!(platform_tag_of(&"Linux".to_string()), "linux");
    assert_eq!(platform_tag_of(&"Darwin".to_string()), "darwin");
    assert_eq!(platform_tag_of(&"Windows".to_string()), "windows");
    assert_eq!(platform_tag_of(&"BeOS".to_string()), "generic");
    assert_eq!(platform_tag_of(&"".to_string()), "generic");
}

#[test]
fn probed_tag_is_always_valid() {
    let tag = current_platform_tag();
    assert!(
        tag == "linux" || tag == "darwin" || tag == "windows" || tag == "generic",
        "unexpected tag {}",
        tag
    );
}

#[test]
fn download_url_appends_tag_to_template() {
    let url = download_url(
        &"https://downloads.example/groovy-3.0.0-".to_string(),
        &"linux".to_string(),
    );
    assert_eq!(url, "https://downloads.example/groovy-3.0.0-linux");
}
