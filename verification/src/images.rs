//! Image files: a reference to the image, and the text that an OCR
//! service read from it when one is used.

use vstd::prelude::*;
use crate::clock::now_rfc3339;
use crate::importers::strs_view;
use crate::model::{
    components_view, fields_view, plain_result, provenance, provenance_v, text_component,
    text_field, text_v, Component, ComponentData, ComponentType, DataV, Field, ImportError,
    ImportResult, ResultV, Scalar, ScalarV,
};
use crate::paths::{extension, file_stem_or, has_ext, path_has_ext, stem_or};

verus! {

/// Importer for PNG, JPEG, GIF and BMP images. With OCR, the text that the
/// OCR service reads from an image becomes its content.
pub struct ImageImporter {
    pub ocr: bool,
}

/// The MIME type of an image named by the extension of `path`, in any
/// ASCII case.
pub open spec fn image_mime(path: Seq<char>) -> Option<Seq<char>> {
    if has_ext(path, "png"@) {
        Some("image/png"@)
    } else if has_ext(path, "jpg"@) || has_ext(path, "jpeg"@) {
        Some("image/jpeg"@)
    } else if has_ext(path, "gif"@) {
        Some("image/gif"@)
    } else if has_ext(path, "bmp"@) {
        Some("image/bmp"@)
    } else {
        None
    }
}

/// The MIME type of the image at `path` (see `image_mime`).
pub fn mime_for_extension(path: &str) -> (r: Option<String>)
    ensures
        crate::model::opt_view(r) == image_mime(path@),
{
    if path_has_ext(path, "png") {
        Some("image/png".to_string())
    } else if path_has_ext(path, "jpg") || path_has_ext(path, "jpeg") {
        Some("image/jpeg".to_string())
    } else if path_has_ext(path, "gif") {
        Some("image/gif".to_string())
    } else if path_has_ext(path, "bmp") {
        Some("image/bmp".to_string())
    } else {
        None
    }
}

/// The reference to an image of type `mime` and `size` bytes.
pub open spec fn image_binary(mime: Seq<char>, size: u64) -> (ComponentType, DataV) {
    (ComponentType::BinaryContent, DataV::Object(seq![("mime_type"@, ScalarV::Text(mime)), ("size"@, ScalarV::Number(size))]))
}

/// The content component holding the OCR text `x` as Markdown.
pub open spec fn ocr_content(x: Seq<char>) -> (ComponentType, DataV) {
    (ComponentType::Content, DataV::Object(seq![("markdown"@, ScalarV::Text(x))]))
}

/// The OCR content of an image, when there is OCR text.
pub open spec fn ocr_part(ocr: Option<Seq<char>>) -> Seq<(ComponentType, DataV)> {
    match ocr {
        Some(x) => seq![ocr_content(x)],
        None => Seq::empty(),
    }
}

/// The image imported from `source`, `size` bytes of type `mime`, imported
/// at `t`; `ocr` is the text read from it, when there is one.
pub open spec fn image_result(source: Seq<char>, mime: Seq<char>, size: u64, ocr: Option<Seq<char>>, t: Seq<char>) -> ResultV {
    ResultV {
        entity_type: "Image"@,
        components: seq![text_v(ComponentType::Title, stem_or(source, "Untitled Image"@)), image_binary(mime, size)]
            + ocr_part(ocr) + seq![provenance_v(source, t, "image"@)],
        cross_references: Seq::empty(),
    }
}

/// The text that OCR read, when OCR is used and succeeded.
pub open spec fn ocr_text(enabled: bool, ocr: Option<Result<String, String>>) -> Option<Seq<char>> {
    if enabled {
        match ocr {
            Some(Ok(t)) => Some(t@),
            _ => None,
        }
    } else {
        None
    }
}

impl ImageImporter {
    /// An importer that uses no OCR.
    pub fn new() -> (r: Self)
        ensures
            !r.ocr,
    {
        ImageImporter { ocr: false }
    }

    /// An importer whose images are read by an OCR service.
    pub fn with_ocr() -> (r: Self)
        ensures
            r.ocr,
    {
        ImageImporter { ocr: true }
    }

    /// Whether `path` names a PNG, JPEG, GIF or BMP image.
    pub fn can_import(&self, path: &str) -> (b: bool)
        ensures
            b == (has_ext(path@, "png"@) || has_ext(path@, "jpg"@) || has_ext(path@, "jpeg"@) || has_ext(path@, "gif"@)
                || has_ext(path@, "bmp"@)),
    {
        path_has_ext(path, "png") || path_has_ext(path, "jpg") || path_has_ext(path, "jpeg") || path_has_ext(path, "gif")
            || path_has_ext(path, "bmp")
    }

    /// The file extensions this importer supports.
    pub fn supported_extensions(&self) -> (r: Vec<&'static str>)
        ensures
            strs_view(r@) == seq!["png"@, "jpg"@, "jpeg"@, "gif"@, "bmp"@],
    {
        let r = vec!["png", "jpg", "jpeg", "gif", "bmp"];
        assert(strs_view(r@) =~= seq!["png"@, "jpg"@, "jpeg"@, "gif"@, "bmp"@]);
        r
    }

    /// The image `data` read from `source_path`, imported at `imported_at`;
    /// `ocr` is what the OCR service answered, when it was asked. An image
    /// whose type is not known is refused.
    pub fn import_at(&self, data: &[u8], source_path: &str, ocr: Option<Result<String, String>>, imported_at: &str) -> (r: Result<ImportResult, ImportError>)
        ensures
            match image_mime(source_path@) {
                None => r matches Err(ImportError::UnsupportedFormat(m)) && m@ == "unknown image mime type"@,
                Some(mime) => r matches Ok(x) && x@ == image_result(
                    source_path@,
                    mime,
                    data@.len() as u64,
                    ocr_text(self.ocr, ocr),
                    imported_at@,
                ),
            },
    {
        let ghost ov = ocr_text(self.ocr, ocr);
        let mime = match mime_for_extension(source_path) {
            None => return Err(ImportError::UnsupportedFormat("unknown image mime type".to_string())),
            Some(m) => m,
        };
        let ghost mv = mime@;
        let size = data.len() as u64;
        let mut components: Vec<Component> = Vec::new();
        components.push(text_component(ComponentType::Title, file_stem_or(source_path, "Untitled Image")));
        let mut binary: Vec<Field> = Vec::new();
        binary.push(text_field("mime_type", mime));
        binary.push(Field { key: "size".to_string(), value: Scalar::Number(size) });
        assert(fields_view(binary@) =~= seq![("mime_type"@, ScalarV::Text(mv)), ("size"@, ScalarV::Number(size))]);
        components.push(Component { component_type: ComponentType::BinaryContent, data: ComponentData::Object(binary) });
        let ghost before = components_view(components@);
        if self.ocr {
            match ocr {
                Some(Ok(text)) => {
                    let ghost x = text@;
                    let mut md: Vec<Field> = Vec::new();
                    md.push(text_field("markdown", text));
                    assert(fields_view(md@) =~= seq![("markdown"@, ScalarV::Text(x))]);
                    components.push(Component { component_type: ComponentType::Content, data: ComponentData::Object(md) });
                    assert(components_view(components@) =~= before.push(ocr_content(x)));
                },
                _ => {},
            }
        }
        assert(components_view(components@) =~= before + ocr_part(ov));
        components.push(provenance(source_path, imported_at, "image"));
        let r = plain_result("Image", components);
        assert(r@.components =~= image_result(source_path@, mv, size, ov, imported_at@).components);
        Ok(r)
    }

    /// The image `data`, stamped with the current time.
    pub fn import(&self, data: &[u8], source_path: &str, ocr: Option<Result<String, String>>) -> (r: Result<ImportResult, ImportError>)
        ensures
            match image_mime(source_path@) {
                None => r matches Err(ImportError::UnsupportedFormat(m)) && m@ == "unknown image mime type"@,
                Some(mime) => exists|t: Seq<char>| r matches Ok(x) && x@ == #[trigger] image_result(
                    source_path@,
                    mime,
                    data@.len() as u64,
                    ocr_text(self.ocr, ocr),
                    t,
                ),
            },
    {
        let now = now_rfc3339();
        self.import_at(data, source_path, ocr, now.as_str())
    }
}

} // verus!
