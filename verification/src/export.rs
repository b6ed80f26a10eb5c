//! Scene export.

use vstd::prelude::*;

use crate::scene::Scene;

verus! {

/// The image formats a scene can be exported to.
#[derive(Debug, Clone, Copy, PartialEq, Eq)]
pub enum ExportFormat {
    Png,
    Jpeg,
    Svg,
}

impl ExportFormat {
    /// The file name extension of the format.
    pub fn extension(&self) -> (r: &'static str)
        ensures
            r@ == (match *self {
                ExportFormat::Png => "png"@,
                ExportFormat::Jpeg => "jpg"@,
                ExportFormat::Svg => "svg"@,
            }),
    {
        match self {
            ExportFormat::Png => "png",
            ExportFormat::Jpeg => "jpg",
            ExportFormat::Svg => "svg",
        }
    }
}

/// Why an export failed.
#[derive(Debug)]
pub enum ExportError {
    /// The output could not be written; the text says why.
    Write(String),
}

pub struct Exporter;

impl Exporter {
    /// Exports the scene as an image of the given size. Rendering is not
    /// implemented yet: the export writes nothing and reports success.
    pub fn export_scene(
        _scene: &Scene,
        _output_path: &str,
        _format: ExportFormat,
        _width: u32,
        _height: u32,
    ) -> (r: Result<(), ExportError>)
        ensures
            r is Ok,
    {
        Ok(())
    }
}

} // verus!
