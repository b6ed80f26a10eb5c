use preferz::arrange::ArrangeMode;
use preferz::export::{ExportFormat, Exporter};
use preferz::handles::{Handle, TransformHandles};
use preferz::i18n::{t, Lang, T};
use preferz::scene::Scene;

#[test]
fn translations() {
    assert_eq!(t(Lang::En, T::NewCanvas), "New Canvas");
    assert_eq!(t(Lang::Zh, T::NewCanvas), "新建画布");
    assert_eq!(t(Lang::En, T::SavePromptCancel), "Cancel");
    assert_eq!(t(Lang::Zh, T::SavePromptCancel), "取消");
    assert_eq!(t(Lang::En, T::WelcomeTitle), t(Lang::Zh, T::WelcomeTitle));
    assert_eq!(Lang::En.display_name(), "English");
    assert_eq!(Lang::Zh.display_name(), "中文");
    assert_eq!(Lang::default(), Lang::En);
}

#[test]
fn export_extensions_and_stub() {
    assert_eq!(ExportFormat::Png.extension(), "png");
    assert_eq!(ExportFormat::Jpeg.extension(), "jpg");
    assert_eq!(ExportFormat::Svg.extension(), "svg");
    assert!(Exporter::export_scene(&Scene::new(), "/nonexistent/out.png", ExportFormat::Png, 10, 10).is_ok());
}

#[test]
fn handle_priority() {
    let mut hits = [false; 9];
    assert_eq!(TransformHandles::pick(&hits, true), Handle::NoHandle);
    hits[8] = true;
    assert_eq!(TransformHandles::pick(&hits, true), Handle::FlipH);
    assert_eq!(TransformHandles::pick(&hits, false), Handle::NoHandle);
    hits[5] = true;
    assert_eq!(TransformHandles::pick(&hits, true), Handle::FlipV);
    hits[4] = true;
    assert_eq!(TransformHandles::pick(&hits, true), Handle::Rotate);
    hits[3] = true;
    assert_eq!(TransformHandles::pick(&hits, true), Handle::ResizeBottomRight);
    hits[0] = true;
    assert_eq!(TransformHandles::pick(&hits, false), Handle::ResizeTopLeft);
}

#[test]
fn hover_takes_the_topmost_hit_and_keeps_the_active_handle() {
    let mut h = TransformHandles::new();
    assert_eq!(h.active_handle, Handle::NoHandle);
    assert!(!h.is_dragging);
    h.active_handle = Handle::Rotate;
    h.is_dragging = true;
    h.set_hover(&[Handle::ResizeTopLeft, Handle::FlipH, Handle::NoHandle]);
    assert_eq!(h.hover_handle, Handle::FlipH);
    assert_eq!(h.active_handle, Handle::Rotate);
    h.set_hover(&[]);
    assert_eq!(h.hover_handle, Handle::NoHandle);
    h.end_drag();
    assert!(!h.is_dragging);
    assert_eq!(h.active_handle, Handle::Rotate);
}

#[test]
fn arrange_modes_are_distinct() {
    assert_ne!(ArrangeMode::Linear, ArrangeMode::Grid);
    assert_ne!(ArrangeMode::Grid, ArrangeMode::Optimal);
}
