use gpux::components::icon::{build_svg, icon, icon_data_hash, Icon, IconData, IconSource};
use gpux::components::image::{classify_image_source, image, image_source_kind, ImageSourceKind};
use gpux::router::Navigator;
use gpux::system::assets::{icon_virtual_path, AssetRegistry};
use gpux::system::global_selection::{highlight_range, selected_text, GlobalSelectionState, NodeHit};

fn lucide_like() -> IconData {
    IconData {
        data: "<path d=\"M5 12h14\"/>".to_string(),
        width: None,
        height: None,
        view_box: None,
        fill: None,
        stroke: Some("currentColor".to_string()),
        stroke_width: Some("2".to_string()),
        stroke_linecap: Some("round".to_string()),
        stroke_linejoin: None,
    }
}

#[test]
fn svg_document_attributes() {
    assert_eq!(
        build_svg(&lucide_like()),
        "<svg xmlns=\"http://www.w3.org/2000/svg\" width=\"24\" height=\"24\" viewBox=\"0 0 24 24\" fill=\"none\" stroke=\"currentColor\" stroke-width=\"2\" stroke-linecap=\"round\"><path d=\"M5 12h14\"/></svg>"
    );
    let solid = IconData {
        data: "D".to_string(),
        width: Some("1em".to_string()),
        height: Some("1em".to_string()),
        view_box: Some("0 0 16 16".to_string()),
        fill: None,
        stroke: None,
        stroke_width: None,
        stroke_linecap: None,
        stroke_linejoin: None,
    };
    assert_eq!(
        build_svg(&solid),
        "<svg xmlns=\"http://www.w3.org/2000/svg\" width=\"1em\" height=\"1em\" viewBox=\"0 0 16 16\" fill=\"currentColor\">D</svg>"
    );
}

#[test]
fn icon_registers_and_serves_svg() {
    let mut reg = AssetRegistry::new();
    let data = lucide_like();
    let hash = icon_data_hash(&data.data);
    let expected = build_svg(&data);
    let ic = icon(IconSource::Icondata(data), &mut reg);
    assert_eq!(*ic.svg_path(), format!("gpux-icon/{}.svg", hash));
    assert_eq!(reg.load(ic.svg_path()), Some(expected.into_bytes()));
    let again = Icon::new(IconSource::Icondata(lucide_like()), &mut reg).class("w-5".to_string());
    assert_eq!(again.svg_path(), ic.svg_path());
    assert_eq!(again.class_list(), "w-5");
    assert_eq!(reg.icons.len(), 1);
}

#[test]
fn icon_from_path_is_not_registered() {
    let mut reg = AssetRegistry::new();
    let ic = Icon::new(IconSource::from("assets/x.svg".to_string()), &mut reg);
    assert_eq!(ic.svg_path(), "assets/x.svg");
    assert!(reg.icons.is_empty());
}

#[test]
fn registry_paths() {
    let mut reg = AssetRegistry::new();
    reg.register_icon(7, "<svg/>".to_string());
    reg.register_icon(7, "<other/>".to_string());
    reg.register_optimized_image(9, vec![1, 2, 3]);
    assert_eq!(icon_virtual_path(7), "gpux-icon/7.svg");
    assert_eq!(reg.load("gpux-icon/7.svg"), Some(b"<svg/>".to_vec()));
    assert_eq!(reg.load("gpux-icon/gpux-icon/7.svg.svg"), Some(b"<svg/>".to_vec()));
    assert_eq!(reg.load("gpux-icon/+7.svg"), Some(b"<svg/>".to_vec()));
    assert_eq!(reg.load("gpux-icon/8.svg"), None);
    assert_eq!(reg.load("gpux-icon/x.svg"), None);
    assert_eq!(reg.load("gpux-optimized/9.webp"), Some(vec![1, 2, 3]));
    assert_eq!(reg.load("gpux-optimized/9.png"), Some(vec![1, 2, 3]));
    assert_eq!(reg.load("gpux-optimized/9.png.webp"), Some(vec![1, 2, 3]));
    assert_eq!(reg.load("gpux-optimized/9.webp.png"), None);
    assert_eq!(reg.load("assets/logo.png"), None);
    assert_eq!(reg.load("gpux-icon/18446744073709551616.svg"), None);
    assert_eq!(icon_virtual_path(u64::MAX), "gpux-icon/18446744073709551615.svg");
}

#[test]
fn image_sources_and_frames() {
    assert_eq!(image_source_kind("https://x/y.png", false), ImageSourceKind::Uri);
    assert_eq!(image_source_kind("http://x", true), ImageSourceKind::Uri);
    assert_eq!(image_source_kind("/tmp/a.png", true), ImageSourceKind::Path);
    assert_eq!(image_source_kind("logo.png", false), ImageSourceKind::Embedded);
    let img = image("https://a/b.png".to_string()).class("w-[200px] rounded-lg".to_string());
    assert_eq!(img.src(), "https://a/b.png");
    assert_eq!(img.source_kind(), ImageSourceKind::Uri);
    let f = img.frame();
    assert!(f.width_200 && !f.height_100 && f.rounded_lg && !f.shadow_md);
}

#[test]
fn class_calls_append() {
    let mut reg = AssetRegistry::new();
    let ic = Icon::new(IconSource::from("a.svg".to_string()), &mut reg)
        .class("w-4".to_string())
        .class("h-4".to_string());
    assert_eq!(ic.class_list(), "w-4 h-4");
    let img = image("a.png".to_string())
        .class("w-[200px]".to_string())
        .class("".to_string())
        .class("rounded-lg".to_string());
    let f = img.frame();
    assert!(f.width_200 && f.rounded_lg);
}

#[test]
fn navigator_push() {
    let mut nav = None;
    assert!(!Navigator::push(&mut nav, "/a".to_string()));
    assert_eq!(Navigator::current_path(&nav), None);
    let mut nav = Some(Navigator::init("/".to_string()));
    assert_eq!(Navigator::current_path(&nav).as_deref(), Some("/"));
    assert!(Navigator::push(&mut nav, "/settings".to_string()));
    assert_eq!(Navigator::current_path(&nav).as_deref(), Some("/settings"));
}

#[test]
fn selection_drag_and_scroll() {
    let mut st: GlobalSelectionState<(i32, i32), (), ()> = GlobalSelectionState::new();
    assert!(!st.mouse_move((1, 1)));
    st.mouse_down((5, 5));
    assert!(st.mouse_move((9, 2)));
    st.mouse_up();
    assert!(!st.mouse_move((0, 0)));
    let less = |a: (i32, i32), b: (i32, i32)| (a.1, a.0) < (b.1, b.0);
    assert_eq!(st.get_selection_range(less), Some(((9, 2), (5, 5))));
    st.scroll();
    assert_eq!(st.get_selection_range(less), None);
    st.select_all(((0, 0), (1, 1)));
    assert_eq!(st.start, None);
}

#[test]
fn selection_nodes() {
    let mut st: GlobalSelectionState<(i32, i32), (), ()> = GlobalSelectionState::default();
    st.register(gpux::system::global_selection::RegisteredTextNode { bounds: (), text: "a".to_string(), layout: () });
    st.register(gpux::system::global_selection::RegisteredTextNode { bounds: (), text: "b".to_string(), layout: () });
    assert_eq!(st.find_node("b"), Some(1));
    assert_eq!(st.find_node("c"), None);
    st.select_all(((0, 0), (3, 3)));
    assert_eq!(st.start, Some((0, 0)));
    st.begin_frame();
    assert!(st.frame_nodes.is_empty());
}

fn hit(start: Result<usize, usize>, end: Result<usize, usize>, before: bool, after: bool) -> NodeHit {
    NodeHit { start, end, starts_before_node: before, ends_after_node: after }
}

#[test]
fn copy_joins_selected_pieces() {
    let nodes = vec!["Hello world".to_string(), "Second line".to_string(), "skip".to_string()];
    let hits = vec![
        hit(Ok(6), Err(0), false, true),
        hit(Err(0), Ok(6), true, false),
        hit(Err(4), Err(0), false, false),
    ];
    assert_eq!(selected_text(&nodes, &hits).as_deref(), Some("world Second"));
    let none = vec![hit(Err(3), Err(0), false, false)];
    assert_eq!(selected_text(&vec!["abc".to_string()], &none), None);
    let spaces = vec![hit(Ok(0), Ok(2), false, false)];
    assert_eq!(selected_text(&vec!["  x".to_string()], &spaces).as_deref(), Some(""));
    let split_char = vec![hit(Ok(0), Ok(2), false, false)];
    assert_eq!(selected_text(&vec!["éa".to_string()], &split_char).as_deref(), Some("é"));
    let bad = vec![hit(Ok(1), Ok(3), false, false)];
    assert_eq!(selected_text(&vec!["éa".to_string()], &bad), None);
}

#[test]
fn highlight_ranges() {
    assert_eq!(highlight_range(10, &hit(Ok(7), Ok(2), false, false)), Some((2, 7)));
    assert_eq!(highlight_range(10, &hit(Err(0), Err(4), true, true)), Some((0, 10)));
    assert_eq!(highlight_range(10, &hit(Err(0), Err(4), true, false)), None);
    assert_eq!(highlight_range(10, &hit(Ok(3), Ok(3), false, false)), None);
    assert_eq!(highlight_range(5, &hit(Ok(3), Ok(9), false, false)), None);
}

#[test]
fn icon_hash_depends_on_data() {
    assert_ne!(icon_data_hash("<path d=\"a\"/>"), icon_data_hash("<path d=\"b\"/>"));
    assert_eq!(icon_data_hash("same"), icon_data_hash("same"));
}

#[test]
fn absolute_paths_on_this_platform() {
    assert_eq!(classify_image_source("https://example.com/a.png"), ImageSourceKind::Uri);
    assert_eq!(classify_image_source("relative/a.png"), ImageSourceKind::Embedded);
    assert_eq!(classify_image_source("/abs/a.png"), ImageSourceKind::Path);
}

#[test]
fn copied_text_has_no_trailing_space() {
    let nodes = vec!["a  ".to_string(), "b\t".to_string()];
    let hits = vec![
        NodeHit { start: Ok(0), end: Ok(3), starts_before_node: false, ends_after_node: false },
        NodeHit { start: Ok(0), end: Ok(2), starts_before_node: false, ends_after_node: false },
    ];
    assert_eq!(selected_text(&nodes, &hits).as_deref(), Some("a   b"));
}
