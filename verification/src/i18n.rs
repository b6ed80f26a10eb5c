//! User-interface texts in English and Chinese: a key enum and two tables.

use vstd::prelude::*;

verus! {

/// The interface languages. English unless chosen otherwise in the settings.
#[derive(Debug, Clone, Copy, PartialEq, Eq, Default)]
pub enum Lang {
    #[default]
    En,
    Zh,
}

impl Lang {
    /// The language's own name, as the language picker shows it.
    pub fn display_name(self) -> (r: &'static str)
        ensures
            r@ == (match self {
                Lang::En => "English"@,
                Lang::Zh => "中文"@,
            }),
    {
        match self {
            Lang::En => "English",
            Lang::Zh => "中文",
        }
    }
}

/// A key of a translated text.
#[derive(Debug, Clone, Copy, PartialEq, Eq)]
pub enum T {
    // ── Context menu ──
    NewCanvas,
    OpenProject,
    LoadImage,
    /// With the shortcut.
    PasteImage,
    Save,
    SaveAs,
    ExportScene,
    ExportImagesToDir,
    DeleteSelected,
    BringToFront,
    SendToBack,
    CropMode,
    NormalizeSize,
    Arrange,
    NormalizeByWidth,
    NormalizeByHeight,
    NormalizeByArea,
    ArrangeLinear,
    ArrangeGrid,
    ArrangeOptimal,
    Settings,
    FitToCanvas,
    ResetZoom,
    Exit,
    ToggleGrayscale,
    CancelGrayscale,
    ColorPickerMode,
    ExitColorPicker,
    // ── Export submenu ──
    ExportPngAll,
    ExportJpgAll,
    ExportPngSelection,
    ExportJpgSelection,
    ExportAllImages,
    ExportSelectionImages,
    // ── Flash messages ──
    FlashTextCreated,
    FlashTextUpdated,
    FlashUndo,
    FlashRedo,
    FlashNewCanvas,
    FlashNoClipboardImage,
    FlashCanvasEmptyNoExport,
    FlashNoSelectionToExport,
    FlashPixelDataNotReady,
    FlashResetZoom,
    FlashBroughtToFront,
    FlashSentToBack,
    FlashFitToCanvas,
    FlashToggleGrayscale,
    FlashCropNeedSingleImage,
    FlashCropImageOnly,
    FlashCropHint,
    FlashCropNoChange,
    FlashCropInvalidSize,
    FlashCropApplied,
    FlashCropCancelled,
    FlashColorPickerMissed,
    FlashColorPickerImageOnly,
    FlashColorPickerHint,
    FlashNormalizeNeedMultiple,
    /// Followed by a path.
    FlashExportedTo,
    /// Followed by a path.
    FlashExportImagesTo,
    /// Progress bar.
    FlashPasteImage,
    /// Followed by a path (progress bar).
    FlashExportProgress,
    /// Followed by a path (progress bar).
    FlashExportImagesProgress,
    /// Followed by a count and a path.
    FlashExportedNImages,
    /// Followed by the error.
    FlashExportFailed,
    /// Default progress text.
    FlashProcessing,
    // ── Welcome page ──
    /// Not translated.
    WelcomeTitle,
    WelcomeSubtitle,
    WelcomeRecentFiles,
    WelcomeHint,
    // ── Settings panel ──
    SettingsTitle,
    SettingsArrange,
    SettingsSpacing,
    SettingsWindow,
    SettingsAlwaysOnTop,
    SettingsFrameless,
    SettingsBgAlpha,
    SettingsLanguage,
    SettingsShortcuts,
    SettingsShortcutArrange,
    SettingsShortcutUndo,
    SettingsShortcutFile,
    SettingsShortcutPaste,
    // ── Save prompt ──
    SavePromptMessage,
    SavePromptSave,
    SavePromptDiscard,
    SavePromptCancel,
}

/// The English text of each key.
pub open spec fn english(key: T) -> Seq<char> {
    match key {
        T::NewCanvas => "New Canvas"@,
        T::OpenProject => "Open Project..."@,
        T::LoadImage => "Load Image..."@,
        T::PasteImage => "Paste Image (Ctrl+V)"@,
        T::Save => "Save"@,
        T::SaveAs => "Save As..."@,
        T::ExportScene => "Export Scene"@,
        T::ExportImagesToDir => "Export Images to Folder"@,
        T::DeleteSelected => "Delete Selected"@,
        T::BringToFront => "Bring to Front"@,
        T::SendToBack => "Send to Back"@,
        T::CropMode => "Crop Mode..."@,
        T::NormalizeSize => "Normalize Size"@,
        T::Arrange => "Arrange"@,
        T::NormalizeByWidth => "By Width"@,
        T::NormalizeByHeight => "By Height"@,
        T::NormalizeByArea => "By Area"@,
        T::ArrangeLinear => "Linear (R)"@,
        T::ArrangeGrid => "Grid (G)"@,
        T::ArrangeOptimal => "Optimal Packing (O)"@,
        T::Settings => "Settings..."@,
        T::FitToCanvas => "Fit to Canvas"@,
        T::ResetZoom => "Reset Zoom"@,
        T::Exit => "Exit"@,
        T::ToggleGrayscale => "Toggle Grayscale"@,
        T::CancelGrayscale => "Cancel Grayscale"@,
        T::ColorPickerMode => "Color Picker Mode"@,
        T::ExitColorPicker => "Exit Color Picker"@,
        T::ExportPngAll => "PNG (All)..."@,
        T::ExportJpgAll => "JPG (All)..."@,
        T::ExportPngSelection => "PNG (Selection)..."@,
        T::ExportJpgSelection => "JPG (Selection)..."@,
        T::ExportAllImages => "All Images..."@,
        T::ExportSelectionImages => "Selection Images..."@,
        T::FlashTextCreated => "Text note created"@,
        T::FlashTextUpdated => "Text note updated"@,
        T::FlashUndo => "Undo"@,
        T::FlashRedo => "Redo"@,
        T::FlashNewCanvas => "New canvas"@,
        T::FlashNoClipboardImage => "No image in clipboard"@,
        T::FlashCanvasEmptyNoExport => "Canvas is empty, nothing to export"@,
        T::FlashNoSelectionToExport => "No selection to export"@,
        T::FlashPixelDataNotReady => "Image pixel data not ready, please retry"@,
        T::FlashResetZoom => "Reset zoom"@,
        T::FlashBroughtToFront => "Brought to front"@,
        T::FlashSentToBack => "Sent to back"@,
        T::FlashFitToCanvas => "Fit to canvas"@,
        T::FlashToggleGrayscale => "Grayscale toggled"@,
        T::FlashCropNeedSingleImage => "Crop requires a single selected image"@,
        T::FlashCropImageOnly => "Only images support cropping"@,
        T::FlashCropHint => "Crop mode: drag corners · Enter to apply · Esc to cancel"@,
        T::FlashCropNoChange => "Crop unchanged"@,
        T::FlashCropInvalidSize => "Invalid crop size"@,
        T::FlashCropApplied => "Crop applied"@,
        T::FlashCropCancelled => "Crop cancelled"@,
        T::FlashColorPickerMissed => "No image hit"@,
        T::FlashColorPickerImageOnly => "Only images support sampling"@,
        T::FlashColorPickerHint => "Color picker: click image to sample · Esc to exit"@,
        T::FlashNormalizeNeedMultiple => "Normalize requires multiple selected images"@,
        T::FlashExportedTo => "Exported to"@,
        T::FlashExportImagesTo => "Export images to"@,
        T::FlashPasteImage => "Pasting image"@,
        T::FlashExportProgress => "Export"@,
        T::FlashExportImagesProgress => "Export images to"@,
        T::FlashExportedNImages => "Exported"@,
        T::FlashExportFailed => "Export failed"@,
        T::FlashProcessing => "Processing..."@,
        T::WelcomeTitle => "PReferZ"@,
        T::WelcomeSubtitle => "Reference image board · right-click to start"@,
        T::WelcomeRecentFiles => "Recent Files"@,
        T::WelcomeHint => "Right-click → Open Project / Load Image / Paste Image"@,
        T::SettingsTitle => "Settings"@,
        T::SettingsArrange => "Arrange"@,
        T::SettingsSpacing => "Spacing"@,
        T::SettingsWindow => "Window"@,
        T::SettingsAlwaysOnTop => "Always on Top"@,
        T::SettingsFrameless => "Frameless Float Mode"@,
        T::SettingsBgAlpha => "Background Opacity"@,
        T::SettingsLanguage => "Language"@,
        T::SettingsShortcuts => "Shortcuts"@,
        T::SettingsShortcutArrange => "R/G/O arrange · C crop · I color picker · F fit"@,
        T::SettingsShortcutUndo => "Ctrl+Z undo · Ctrl+Shift+Z redo"@,
        T::SettingsShortcutFile => "Ctrl+N new · Ctrl+O open · Ctrl+I load image"@,
        T::SettingsShortcutPaste => "Ctrl+V paste · Ctrl+S save · Ctrl+Shift+S save as"@,
        T::SavePromptMessage => "Canvas has unsaved changes. Save?"@,
        T::SavePromptSave => "Save"@,
        T::SavePromptDiscard => "Discard"@,
        T::SavePromptCancel => "Cancel"@,
    }
}

/// The Chinese text of each key.
pub open spec fn chinese(key: T) -> Seq<char> {
    match key {
        T::NewCanvas => "新建画布"@,
        T::OpenProject => "打开项目..."@,
        T::LoadImage => "载入图片..."@,
        T::PasteImage => "粘贴图片 (Ctrl+V)"@,
        T::Save => "保存"@,
        T::SaveAs => "另存为..."@,
        T::ExportScene => "导出场景"@,
        T::ExportImagesToDir => "导出图片到目录"@,
        T::DeleteSelected => "删除选中"@,
        T::BringToFront => "置于顶层"@,
        T::SendToBack => "置于底层"@,
        T::CropMode => "裁剪模式..."@,
        T::NormalizeSize => "归一化尺寸"@,
        T::Arrange => "排列"@,
        T::NormalizeByWidth => "按宽度"@,
        T::NormalizeByHeight => "按高度"@,
        T::NormalizeByArea => "按面积"@,
        T::ArrangeLinear => "线形 (R)"@,
        T::ArrangeGrid => "网格 (G)"@,
        T::ArrangeOptimal => "最优装箱 (O)"@,
        T::Settings => "设置..."@,
        T::FitToCanvas => "适应画布"@,
        T::ResetZoom => "重置缩放"@,
        T::Exit => "退出"@,
        T::ToggleGrayscale => "切换灰度"@,
        T::CancelGrayscale => "取消灰度"@,
        T::ColorPickerMode => "取色器模式"@,
        T::ExitColorPicker => "退出取色器"@,
        T::ExportPngAll => "PNG (全部)..."@,
        T::ExportJpgAll => "JPG (全部)..."@,
        T::ExportPngSelection => "PNG (仅选中)..."@,
        T::ExportJpgSelection => "JPG (仅选中)..."@,
        T::ExportAllImages => "全部图片..."@,
        T::ExportSelectionImages => "仅选中图片..."@,
        T::FlashTextCreated => "已创建文本便签"@,
        T::FlashTextUpdated => "已更新文本便签"@,
        T::FlashUndo => "撤销"@,
        T::FlashRedo => "重做"@,
        T::FlashNewCanvas => "新建画布"@,
        T::FlashNoClipboardImage => "剪贴板中无图片"@,
        T::FlashCanvasEmptyNoExport => "画布为空，无需导出"@,
        T::FlashNoSelectionToExport => "无选中项可导出"@,
        T::FlashPixelDataNotReady => "图片像素数据未就绪，请稍后再试"@,
        T::FlashResetZoom => "重置缩放"@,
        T::FlashBroughtToFront => "置于顶层"@,
        T::FlashSentToBack => "置于底层"@,
        T::FlashFitToCanvas => "适应画布"@,
        T::FlashToggleGrayscale => "切换灰度"@,
        T::FlashCropNeedSingleImage => "裁剪需要选中单个图片"@,
        T::FlashCropImageOnly => "仅图片支持裁剪"@,
        T::FlashCropHint => "裁剪模式：拖拽角点 · Enter 应用 · Esc 取消"@,
        T::FlashCropNoChange => "裁剪未变化"@,
        T::FlashCropInvalidSize => "裁剪尺寸无效"@,
        T::FlashCropApplied => "已应用裁剪"@,
        T::FlashCropCancelled => "取消裁剪"@,
        T::FlashColorPickerMissed => "未命中图片"@,
        T::FlashColorPickerImageOnly => "仅图片支持采样"@,
        T::FlashColorPickerHint => "取色器模式：单击图片采样 · Esc 退出"@,
        T::FlashNormalizeNeedMultiple => "归一化需要选中多个图片"@,
        T::FlashExportedTo => "已导出到"@,
        T::FlashExportImagesTo => "导出图片到"@,
        T::FlashPasteImage => "粘贴图片"@,
        T::FlashExportProgress => "导出"@,
        T::FlashExportImagesProgress => "导出图片到"@,
        T::FlashExportedNImages => "已导出"@,
        T::FlashExportFailed => "导出失败"@,
        T::FlashProcessing => "处理中..."@,
        T::WelcomeTitle => "PReferZ"@,
        T::WelcomeSubtitle => "参考图板 · 右键打开菜单开始"@,
        T::WelcomeRecentFiles => "最近文件"@,
        T::WelcomeHint => "右键 → 打开项目 / 载入图片 / 粘贴图片"@,
        T::SettingsTitle => "设置"@,
        T::SettingsArrange => "排列"@,
        T::SettingsSpacing => "间距"@,
        T::SettingsWindow => "窗口"@,
        T::SettingsAlwaysOnTop => "始终置顶"@,
        T::SettingsFrameless => "无边框悬浮模式"@,
        T::SettingsBgAlpha => "背景透明度"@,
        T::SettingsLanguage => "语言"@,
        T::SettingsShortcuts => "快捷键"@,
        T::SettingsShortcutArrange => "R/G/O 排列 · C 裁剪 · I 取色器 · F 适应画布"@,
        T::SettingsShortcutUndo => "Ctrl+Z 撤销 · Ctrl+Shift+Z 重做"@,
        T::SettingsShortcutFile => "Ctrl+N 新建 · Ctrl+O 打开 · Ctrl+I 载入图片"@,
        T::SettingsShortcutPaste => "Ctrl+V 粘贴图片 · Ctrl+S 保存 · Ctrl+Shift+S 另存为"@,
        T::SavePromptMessage => "画布有未保存的修改，是否保存？"@,
        T::SavePromptSave => "保存"@,
        T::SavePromptDiscard => "放弃"@,
        T::SavePromptCancel => "取消"@,
    }
}

/// The text of `key` in `lang`.
pub open spec fn text_of(lang: Lang, key: T) -> Seq<char> {
    match lang {
        Lang::En => english(key),
        Lang::Zh => chinese(key),
    }
}

/// The interface text of every key in both languages.
pub proof fn law_interface_texts()
    ensures
        text_of(Lang::En, T::NewCanvas) == "New Canvas"@,
        text_of(Lang::En, T::OpenProject) == "Open Project..."@,
        text_of(Lang::En, T::LoadImage) == "Load Image..."@,
        text_of(Lang::En, T::PasteImage) == "Paste Image (Ctrl+V)"@,
        text_of(Lang::En, T::Save) == "Save"@,
        text_of(Lang::En, T::SaveAs) == "Save As..."@,
        text_of(Lang::En, T::ExportScene) == "Export Scene"@,
        text_of(Lang::En, T::ExportImagesToDir) == "Export Images to Folder"@,
        text_of(Lang::En, T::DeleteSelected) == "Delete Selected"@,
        text_of(Lang::En, T::BringToFront) == "Bring to Front"@,
        text_of(Lang::En, T::SendToBack) == "Send to Back"@,
        text_of(Lang::En, T::CropMode) == "Crop Mode..."@,
        text_of(Lang::En, T::NormalizeSize) == "Normalize Size"@,
        text_of(Lang::En, T::Arrange) == "Arrange"@,
        text_of(Lang::En, T::NormalizeByWidth) == "By Width"@,
        text_of(Lang::En, T::NormalizeByHeight) == "By Height"@,
        text_of(Lang::En, T::NormalizeByArea) == "By Area"@,
        text_of(Lang::En, T::ArrangeLinear) == "Linear (R)"@,
        text_of(Lang::En, T::ArrangeGrid) == "Grid (G)"@,
        text_of(Lang::En, T::ArrangeOptimal) == "Optimal Packing (O)"@,
        text_of(Lang::En, T::Settings) == "Settings..."@,
        text_of(Lang::En, T::FitToCanvas) == "Fit to Canvas"@,
        text_of(Lang::En, T::ResetZoom) == "Reset Zoom"@,
        text_of(Lang::En, T::Exit) == "Exit"@,
        text_of(Lang::En, T::ToggleGrayscale) == "Toggle Grayscale"@,
        text_of(Lang::En, T::CancelGrayscale) == "Cancel Grayscale"@,
        text_of(Lang::En, T::ColorPickerMode) == "Color Picker Mode"@,
        text_of(Lang::En, T::ExitColorPicker) == "Exit Color Picker"@,
        text_of(Lang::En, T::ExportPngAll) == "PNG (All)..."@,
        text_of(Lang::En, T::ExportJpgAll) == "JPG (All)..."@,
        text_of(Lang::En, T::ExportPngSelection) == "PNG (Selection)..."@,
        text_of(Lang::En, T::ExportJpgSelection) == "JPG (Selection)..."@,
        text_of(Lang::En, T::ExportAllImages) == "All Images..."@,
        text_of(Lang::En, T::ExportSelectionImages) == "Selection Images..."@,
        text_of(Lang::En, T::FlashTextCreated) == "Text note created"@,
        text_of(Lang::En, T::FlashTextUpdated) == "Text note updated"@,
        text_of(Lang::En, T::FlashUndo) == "Undo"@,
        text_of(Lang::En, T::FlashRedo) == "Redo"@,
        text_of(Lang::En, T::FlashNewCanvas) == "New canvas"@,
        text_of(Lang::En, T::FlashNoClipboardImage) == "No image in clipboard"@,
        text_of(Lang::En, T::FlashCanvasEmptyNoExport) == "Canvas is empty, nothing to export"@,
        text_of(Lang::En, T::FlashNoSelectionToExport) == "No selection to export"@,
        text_of(Lang::En, T::FlashPixelDataNotReady) == "Image pixel data not ready, please retry"@,
        text_of(Lang::En, T::FlashResetZoom) == "Reset zoom"@,
        text_of(Lang::En, T::FlashBroughtToFront) == "Brought to front"@,
        text_of(Lang::En, T::FlashSentToBack) == "Sent to back"@,
        text_of(Lang::En, T::FlashFitToCanvas) == "Fit to canvas"@,
        text_of(Lang::En, T::FlashToggleGrayscale) == "Grayscale toggled"@,
        text_of(Lang::En, T::FlashCropNeedSingleImage) == "Crop requires a single selected image"@,
        text_of(Lang::En, T::FlashCropImageOnly) == "Only images support cropping"@,
        text_of(Lang::En, T::FlashCropHint) == "Crop mode: drag corners · Enter to apply · Esc to cancel"@,
        text_of(Lang::En, T::FlashCropNoChange) == "Crop unchanged"@,
        text_of(Lang::En, T::FlashCropInvalidSize) == "Invalid crop size"@,
        text_of(Lang::En, T::FlashCropApplied) == "Crop applied"@,
        text_of(Lang::En, T::FlashCropCancelled) == "Crop cancelled"@,
        text_of(Lang::En, T::FlashColorPickerMissed) == "No image hit"@,
        text_of(Lang::En, T::FlashColorPickerImageOnly) == "Only images support sampling"@,
        text_of(Lang::En, T::FlashColorPickerHint) == "Color picker: click image to sample · Esc to exit"@,
        text_of(Lang::En, T::FlashNormalizeNeedMultiple) == "Normalize requires multiple selected images"@,
        text_of(Lang::En, T::FlashExportedTo) == "Exported to"@,
        text_of(Lang::En, T::FlashExportImagesTo) == "Export images to"@,
        text_of(Lang::En, T::FlashPasteImage) == "Pasting image"@,
        text_of(Lang::En, T::FlashExportProgress) == "Export"@,
        text_of(Lang::En, T::FlashExportImagesProgress) == "Export images to"@,
        text_of(Lang::En, T::FlashExportedNImages) == "Exported"@,
        text_of(Lang::En, T::FlashExportFailed) == "Export failed"@,
        text_of(Lang::En, T::FlashProcessing) == "Processing..."@,
        text_of(Lang::En, T::WelcomeTitle) == "PReferZ"@,
        text_of(Lang::En, T::WelcomeSubtitle) == "Reference image board · right-click to start"@,
        text_of(Lang::En, T::WelcomeRecentFiles) == "Recent Files"@,
        text_of(Lang::En, T::WelcomeHint) == "Right-click → Open Project / Load Image / Paste Image"@,
        text_of(Lang::En, T::SettingsTitle) == "Settings"@,
        text_of(Lang::En, T::SettingsArrange) == "Arrange"@,
        text_of(Lang::En, T::SettingsSpacing) == "Spacing"@,
        text_of(Lang::En, T::SettingsWindow) == "Window"@,
        text_of(Lang::En, T::SettingsAlwaysOnTop) == "Always on Top"@,
        text_of(Lang::En, T::SettingsFrameless) == "Frameless Float Mode"@,
        text_of(Lang::En, T::SettingsBgAlpha) == "Background Opacity"@,
        text_of(Lang::En, T::SettingsLanguage) == "Language"@,
        text_of(Lang::En, T::SettingsShortcuts) == "Shortcuts"@,
        text_of(Lang::En, T::SettingsShortcutArrange) == "R/G/O arrange · C crop · I color picker · F fit"@,
        text_of(Lang::En, T::SettingsShortcutUndo) == "Ctrl+Z undo · Ctrl+Shift+Z redo"@,
        text_of(Lang::En, T::SettingsShortcutFile) == "Ctrl+N new · Ctrl+O open · Ctrl+I load image"@,
        text_of(Lang::En, T::SettingsShortcutPaste) == "Ctrl+V paste · Ctrl+S save · Ctrl+Shift+S save as"@,
        text_of(Lang::En, T::SavePromptMessage) == "Canvas has unsaved changes. Save?"@,
        text_of(Lang::En, T::SavePromptSave) == "Save"@,
        text_of(Lang::En, T::SavePromptDiscard) == "Discard"@,
        text_of(Lang::En, T::SavePromptCancel) == "Cancel"@,
        text_of(Lang::Zh, T::NewCanvas) == "新建画布"@,
        text_of(Lang::Zh, T::OpenProject) == "打开项目..."@,
        text_of(Lang::Zh, T::LoadImage) == "载入图片..."@,
        text_of(Lang::Zh, T::PasteImage) == "粘贴图片 (Ctrl+V)"@,
        text_of(Lang::Zh, T::Save) == "保存"@,
        text_of(Lang::Zh, T::SaveAs) == "另存为..."@,
        text_of(Lang::Zh, T::ExportScene) == "导出场景"@,
        text_of(Lang::Zh, T::ExportImagesToDir) == "导出图片到目录"@,
        text_of(Lang::Zh, T::DeleteSelected) == "删除选中"@,
        text_of(Lang::Zh, T::BringToFront) == "置于顶层"@,
        text_of(Lang::Zh, T::SendToBack) == "置于底层"@,
        text_of(Lang::Zh, T::CropMode) == "裁剪模式..."@,
        text_of(Lang::Zh, T::NormalizeSize) == "归一化尺寸"@,
        text_of(Lang::Zh, T::Arrange) == "排列"@,
        text_of(Lang::Zh, T::NormalizeByWidth) == "按宽度"@,
        text_of(Lang::Zh, T::NormalizeByHeight) == "按高度"@,
        text_of(Lang::Zh, T::NormalizeByArea) == "按面积"@,
        text_of(Lang::Zh, T::ArrangeLinear) == "线形 (R)"@,
        text_of(Lang::Zh, T::ArrangeGrid) == "网格 (G)"@,
        text_of(Lang::Zh, T::ArrangeOptimal) == "最优装箱 (O)"@,
        text_of(Lang::Zh, T::Settings) == "设置..."@,
        text_of(Lang::Zh, T::FitToCanvas) == "适应画布"@,
        text_of(Lang::Zh, T::ResetZoom) == "重置缩放"@,
        text_of(Lang::Zh, T::Exit) == "退出"@,
        text_of(Lang::Zh, T::ToggleGrayscale) == "切换灰度"@,
        text_of(Lang::Zh, T::CancelGrayscale) == "取消灰度"@,
        text_of(Lang::Zh, T::ColorPickerMode) == "取色器模式"@,
        text_of(Lang::Zh, T::ExitColorPicker) == "退出取色器"@,
        text_of(Lang::Zh, T::ExportPngAll) == "PNG (全部)..."@,
        text_of(Lang::Zh, T::ExportJpgAll) == "JPG (全部)..."@,
        text_of(Lang::Zh, T::ExportPngSelection) == "PNG (仅选中)..."@,
        text_of(Lang::Zh, T::ExportJpgSelection) == "JPG (仅选中)..."@,
        text_of(Lang::Zh, T::ExportAllImages) == "全部图片..."@,
        text_of(Lang::Zh, T::ExportSelectionImages) == "仅选中图片..."@,
        text_of(Lang::Zh, T::FlashTextCreated) == "已创建文本便签"@,
        text_of(Lang::Zh, T::FlashTextUpdated) == "已更新文本便签"@,
        text_of(Lang::Zh, T::FlashUndo) == "撤销"@,
        text_of(Lang::Zh, T::FlashRedo) == "重做"@,
        text_of(Lang::Zh, T::FlashNewCanvas) == "新建画布"@,
        text_of(Lang::Zh, T::FlashNoClipboardImage) == "剪贴板中无图片"@,
        text_of(Lang::Zh, T::FlashCanvasEmptyNoExport) == "画布为空，无需导出"@,
        text_of(Lang::Zh, T::FlashNoSelectionToExport) == "无选中项可导出"@,
        text_of(Lang::Zh, T::FlashPixelDataNotReady) == "图片像素数据未就绪，请稍后再试"@,
        text_of(Lang::Zh, T::FlashResetZoom) == "重置缩放"@,
        text_of(Lang::Zh, T::FlashBroughtToFront) == "置于顶层"@,
        text_of(Lang::Zh, T::FlashSentToBack) == "置于底层"@,
        text_of(Lang::Zh, T::FlashFitToCanvas) == "适应画布"@,
        text_of(Lang::Zh, T::FlashToggleGrayscale) == "切换灰度"@,
        text_of(Lang::Zh, T::FlashCropNeedSingleImage) == "裁剪需要选中单个图片"@,
        text_of(Lang::Zh, T::FlashCropImageOnly) == "仅图片支持裁剪"@,
        text_of(Lang::Zh, T::FlashCropHint) == "裁剪模式：拖拽角点 · Enter 应用 · Esc 取消"@,
        text_of(Lang::Zh, T::FlashCropNoChange) == "裁剪未变化"@,
        text_of(Lang::Zh, T::FlashCropInvalidSize) == "裁剪尺寸无效"@,
        text_of(Lang::Zh, T::FlashCropApplied) == "已应用裁剪"@,
        text_of(Lang::Zh, T::FlashCropCancelled) == "取消裁剪"@,
        text_of(Lang::Zh, T::FlashColorPickerMissed) == "未命中图片"@,
        text_of(Lang::Zh, T::FlashColorPickerImageOnly) == "仅图片支持采样"@,
        text_of(Lang::Zh, T::FlashColorPickerHint) == "取色器模式：单击图片采样 · Esc 退出"@,
        text_of(Lang::Zh, T::FlashNormalizeNeedMultiple) == "归一化需要选中多个图片"@,
        text_of(Lang::Zh, T::FlashExportedTo) == "已导出到"@,
        text_of(Lang::Zh, T::FlashExportImagesTo) == "导出图片到"@,
        text_of(Lang::Zh, T::FlashPasteImage) == "粘贴图片"@,
        text_of(Lang::Zh, T::FlashExportProgress) == "导出"@,
        text_of(Lang::Zh, T::FlashExportImagesProgress) == "导出图片到"@,
        text_of(Lang::Zh, T::FlashExportedNImages) == "已导出"@,
        text_of(Lang::Zh, T::FlashExportFailed) == "导出失败"@,
        text_of(Lang::Zh, T::FlashProcessing) == "处理中..."@,
        text_of(Lang::Zh, T::WelcomeTitle) == "PReferZ"@,
        text_of(Lang::Zh, T::WelcomeSubtitle) == "参考图板 · 右键打开菜单开始"@,
        text_of(Lang::Zh, T::WelcomeRecentFiles) == "最近文件"@,
        text_of(Lang::Zh, T::WelcomeHint) == "右键 → 打开项目 / 载入图片 / 粘贴图片"@,
        text_of(Lang::Zh, T::SettingsTitle) == "设置"@,
        text_of(Lang::Zh, T::SettingsArrange) == "排列"@,
        text_of(Lang::Zh, T::SettingsSpacing) == "间距"@,
        text_of(Lang::Zh, T::SettingsWindow) == "窗口"@,
        text_of(Lang::Zh, T::SettingsAlwaysOnTop) == "始终置顶"@,
        text_of(Lang::Zh, T::SettingsFrameless) == "无边框悬浮模式"@,
        text_of(Lang::Zh, T::SettingsBgAlpha) == "背景透明度"@,
        text_of(Lang::Zh, T::SettingsLanguage) == "语言"@,
        text_of(Lang::Zh, T::SettingsShortcuts) == "快捷键"@,
        text_of(Lang::Zh, T::SettingsShortcutArrange) == "R/G/O 排列 · C 裁剪 · I 取色器 · F 适应画布"@,
        text_of(Lang::Zh, T::SettingsShortcutUndo) == "Ctrl+Z 撤销 · Ctrl+Shift+Z 重做"@,
        text_of(Lang::Zh, T::SettingsShortcutFile) == "Ctrl+N 新建 · Ctrl+O 打开 · Ctrl+I 载入图片"@,
        text_of(Lang::Zh, T::SettingsShortcutPaste) == "Ctrl+V 粘贴图片 · Ctrl+S 保存 · Ctrl+Shift+S 另存为"@,
        text_of(Lang::Zh, T::SavePromptMessage) == "画布有未保存的修改，是否保存？"@,
        text_of(Lang::Zh, T::SavePromptSave) == "保存"@,
        text_of(Lang::Zh, T::SavePromptDiscard) == "放弃"@,
        text_of(Lang::Zh, T::SavePromptCancel) == "取消"@,
{
}

/// The text of `key` in `lang`.
pub fn t(lang: Lang, key: T) -> (r: &'static str)
    ensures
        r@ == text_of(lang, key),
{
    match lang {
        Lang::En => translate_en(key),
        Lang::Zh => translate_zh(key),
    }
}

fn translate_en(key: T) -> (r: &'static str)
    ensures
        r@ == english(key),
{
    match key {
        T::NewCanvas => "New Canvas",
        T::OpenProject => "Open Project...",
        T::LoadImage => "Load Image...",
        T::PasteImage => "Paste Image (Ctrl+V)",
        T::Save => "Save",
        T::SaveAs => "Save As...",
        T::ExportScene => "Export Scene",
        T::ExportImagesToDir => "Export Images to Folder",
        T::DeleteSelected => "Delete Selected",
        T::BringToFront => "Bring to Front",
        T::SendToBack => "Send to Back",
        T::CropMode => "Crop Mode...",
        T::NormalizeSize => "Normalize Size",
        T::Arrange => "Arrange",
        T::NormalizeByWidth => "By Width",
        T::NormalizeByHeight => "By Height",
        T::NormalizeByArea => "By Area",
        T::ArrangeLinear => "Linear (R)",
        T::ArrangeGrid => "Grid (G)",
        T::ArrangeOptimal => "Optimal Packing (O)",
        T::Settings => "Settings...",
        T::FitToCanvas => "Fit to Canvas",
        T::ResetZoom => "Reset Zoom",
        T::Exit => "Exit",
        T::ToggleGrayscale => "Toggle Grayscale",
        T::CancelGrayscale => "Cancel Grayscale",
        T::ColorPickerMode => "Color Picker Mode",
        T::ExitColorPicker => "Exit Color Picker",
        T::ExportPngAll => "PNG (All)...",
        T::ExportJpgAll => "JPG (All)...",
        T::ExportPngSelection => "PNG (Selection)...",
        T::ExportJpgSelection => "JPG (Selection)...",
        T::ExportAllImages => "All Images...",
        T::ExportSelectionImages => "Selection Images...",
        T::FlashTextCreated => "Text note created",
        T::FlashTextUpdated => "Text note updated",
        T::FlashUndo => "Undo",
        T::FlashRedo => "Redo",
        T::FlashNewCanvas => "New canvas",
        T::FlashNoClipboardImage => "No image in clipboard",
        T::FlashCanvasEmptyNoExport => "Canvas is empty, nothing to export",
        T::FlashNoSelectionToExport => "No selection to export",
        T::FlashPixelDataNotReady => "Image pixel data not ready, please retry",
        T::FlashResetZoom => "Reset zoom",
        T::FlashBroughtToFront => "Brought to front",
        T::FlashSentToBack => "Sent to back",
        T::FlashFitToCanvas => "Fit to canvas",
        T::FlashToggleGrayscale => "Grayscale toggled",
        T::FlashCropNeedSingleImage => "Crop requires a single selected image",
        T::FlashCropImageOnly => "Only images support cropping",
        T::FlashCropHint => "Crop mode: drag corners · Enter to apply · Esc to cancel",
        T::FlashCropNoChange => "Crop unchanged",
        T::FlashCropInvalidSize => "Invalid crop size",
        T::FlashCropApplied => "Crop applied",
        T::FlashCropCancelled => "Crop cancelled",
        T::FlashColorPickerMissed => "No image hit",
        T::FlashColorPickerImageOnly => "Only images support sampling",
        T::FlashColorPickerHint => "Color picker: click image to sample · Esc to exit",
        T::FlashNormalizeNeedMultiple => "Normalize requires multiple selected images",
        T::FlashExportedTo => "Exported to",
        T::FlashExportImagesTo => "Export images to",
        T::FlashPasteImage => "Pasting image",
        T::FlashExportProgress => "Export",
        T::FlashExportImagesProgress => "Export images to",
        T::FlashExportedNImages => "Exported",
        T::FlashExportFailed => "Export failed",
        T::FlashProcessing => "Processing...",
        T::WelcomeTitle => "PReferZ",
        T::WelcomeSubtitle => "Reference image board · right-click to start",
        T::WelcomeRecentFiles => "Recent Files",
        T::WelcomeHint => "Right-click → Open Project / Load Image / Paste Image",
        T::SettingsTitle => "Settings",
        T::SettingsArrange => "Arrange",
        T::SettingsSpacing => "Spacing",
        T::SettingsWindow => "Window",
        T::SettingsAlwaysOnTop => "Always on Top",
        T::SettingsFrameless => "Frameless Float Mode",
        T::SettingsBgAlpha => "Background Opacity",
        T::SettingsLanguage => "Language",
        T::SettingsShortcuts => "Shortcuts",
        T::SettingsShortcutArrange => "R/G/O arrange · C crop · I color picker · F fit",
        T::SettingsShortcutUndo => "Ctrl+Z undo · Ctrl+Shift+Z redo",
        T::SettingsShortcutFile => "Ctrl+N new · Ctrl+O open · Ctrl+I load image",
        T::SettingsShortcutPaste => "Ctrl+V paste · Ctrl+S save · Ctrl+Shift+S save as",
        T::SavePromptMessage => "Canvas has unsaved changes. Save?",
        T::SavePromptSave => "Save",
        T::SavePromptDiscard => "Discard",
        T::SavePromptCancel => "Cancel",
    }
}

fn translate_zh(key: T) -> (r: &'static str)
    ensures
        r@ == chinese(key),
{
    match key {
        T::NewCanvas => "新建画布",
        T::OpenProject => "打开项目...",
        T::LoadImage => "载入图片...",
        T::PasteImage => "粘贴图片 (Ctrl+V)",
        T::Save => "保存",
        T::SaveAs => "另存为...",
        T::ExportScene => "导出场景",
        T::ExportImagesToDir => "导出图片到目录",
        T::DeleteSelected => "删除选中",
        T::BringToFront => "置于顶层",
        T::SendToBack => "置于底层",
        T::CropMode => "裁剪模式...",
        T::NormalizeSize => "归一化尺寸",
        T::Arrange => "排列",
        T::NormalizeByWidth => "按宽度",
        T::NormalizeByHeight => "按高度",
        T::NormalizeByArea => "按面积",
        T::ArrangeLinear => "线形 (R)",
        T::ArrangeGrid => "网格 (G)",
        T::ArrangeOptimal => "最优装箱 (O)",
        T::Settings => "设置...",
        T::FitToCanvas => "适应画布",
        T::ResetZoom => "重置缩放",
        T::Exit => "退出",
        T::ToggleGrayscale => "切换灰度",
        T::CancelGrayscale => "取消灰度",
        T::ColorPickerMode => "取色器模式",
        T::ExitColorPicker => "退出取色器",
        T::ExportPngAll => "PNG (全部)...",
        T::ExportJpgAll => "JPG (全部)...",
        T::ExportPngSelection => "PNG (仅选中)...",
        T::ExportJpgSelection => "JPG (仅选中)...",
        T::ExportAllImages => "全部图片...",
        T::ExportSelectionImages => "仅选中图片...",
        T::FlashTextCreated => "已创建文本便签",
        T::FlashTextUpdated => "已更新文本便签",
        T::FlashUndo => "撤销",
        T::FlashRedo => "重做",
        T::FlashNewCanvas => "新建画布",
        T::FlashNoClipboardImage => "剪贴板中无图片",
        T::FlashCanvasEmptyNoExport => "画布为空，无需导出",
        T::FlashNoSelectionToExport => "无选中项可导出",
        T::FlashPixelDataNotReady => "图片像素数据未就绪，请稍后再试",
        T::FlashResetZoom => "重置缩放",
        T::FlashBroughtToFront => "置于顶层",
        T::FlashSentToBack => "置于底层",
        T::FlashFitToCanvas => "适应画布",
        T::FlashToggleGrayscale => "切换灰度",
        T::FlashCropNeedSingleImage => "裁剪需要选中单个图片",
        T::FlashCropImageOnly => "仅图片支持裁剪",
        T::FlashCropHint => "裁剪模式：拖拽角点 · Enter 应用 · Esc 取消",
        T::FlashCropNoChange => "裁剪未变化",
        T::FlashCropInvalidSize => "裁剪尺寸无效",
        T::FlashCropApplied => "已应用裁剪",
        T::FlashCropCancelled => "取消裁剪",
        T::FlashColorPickerMissed => "未命中图片",
        T::FlashColorPickerImageOnly => "仅图片支持采样",
        T::FlashColorPickerHint => "取色器模式：单击图片采样 · Esc 退出",
        T::FlashNormalizeNeedMultiple => "归一化需要选中多个图片",
        T::FlashExportedTo => "已导出到",
        T::FlashExportImagesTo => "导出图片到",
        T::FlashPasteImage => "粘贴图片",
        T::FlashExportProgress => "导出",
        T::FlashExportImagesProgress => "导出图片到",
        T::FlashExportedNImages => "已导出",
        T::FlashExportFailed => "导出失败",
        T::FlashProcessing => "处理中...",
        T::WelcomeTitle => "PReferZ",
        T::WelcomeSubtitle => "参考图板 · 右键打开菜单开始",
        T::WelcomeRecentFiles => "最近文件",
        T::WelcomeHint => "右键 → 打开项目 / 载入图片 / 粘贴图片",
        T::SettingsTitle => "设置",
        T::SettingsArrange => "排列",
        T::SettingsSpacing => "间距",
        T::SettingsWindow => "窗口",
        T::SettingsAlwaysOnTop => "始终置顶",
        T::SettingsFrameless => "无边框悬浮模式",
        T::SettingsBgAlpha => "背景透明度",
        T::SettingsLanguage => "语言",
        T::SettingsShortcuts => "快捷键",
        T::SettingsShortcutArrange => "R/G/O 排列 · C 裁剪 · I 取色器 · F 适应画布",
        T::SettingsShortcutUndo => "Ctrl+Z 撤销 · Ctrl+Shift+Z 重做",
        T::SettingsShortcutFile => "Ctrl+N 新建 · Ctrl+O 打开 · Ctrl+I 载入图片",
        T::SettingsShortcutPaste => "Ctrl+V 粘贴图片 · Ctrl+S 保存 · Ctrl+Shift+S 另存为",
        T::SavePromptMessage => "画布有未保存的修改，是否保存？",
        T::SavePromptSave => "保存",
        T::SavePromptDiscard => "放弃",
        T::SavePromptCancel => "取消",
    }
}

} // verus!
