use create_kml_file::get_style_kml;

#[test]
fn style_kml_holds_the_shared_style_map() {
    let s = get_style_kml();
    assert!(s.contains("<StyleMap id=\"icon-1739-0288D1-nodesc\">"));
    assert!(s.contains("icon-1739-0288D1-nodesc-normal"));
    assert!(s.contains("icon-1739-0288D1-nodesc-highlight"));
    assert!(s.contains("<color>ffd18802</color>"));
}
