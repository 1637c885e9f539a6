//! Recognising a file's format from its first bytes.

use vstd::prelude::*;

verus! {

/// The formats that the leading bytes of a file reveal.
#[derive(PartialEq, Eq, Structural, Clone, Copy, Debug)]
pub enum DetectedFormat {
    Docx,
    Xlsx,
    Pptx,
    Pdf,
    Zip,
    Unknown,
}

/// Byte `i` of an 8-byte header buffer into which `head` was read; bytes
/// that were not read stay zero.
pub open spec fn header_byte(head: Seq<u8>, i: int) -> u8 {
    if 0 <= i < head.len() {
        head[i]
    } else {
        0
    }
}

/// The little-endian 16-bit word at bytes `i` and `i + 1` of the header buffer.
pub open spec fn header_word(head: Seq<u8>, i: int) -> int {
    header_byte(head, i) + 256 * header_byte(head, i + 1)
}

/// The format given by the first bytes of a file (at most eight count):
/// fewer than four bytes say nothing; `PK\x03\x04` is a ZIP archive, which
/// the two 16-bit words after the signature mark as an Office document when
/// the first is non-zero, eight bytes were read and the second is 0x61
/// (Word), 0x62 (Excel) or 0x63 (PowerPoint); `%PDF` is a PDF.
pub open spec fn detect_format_spec(head: Seq<u8>) -> DetectedFormat {
    let n = if head.len() < 8 { head.len() as int } else { 8 };
    if n < 4 {
        DetectedFormat::Unknown
    } else if head[0] == 0x50 && head[1] == 0x4B && head[2] == 0x03 && head[3] == 0x04 {
        if header_word(head, 4) != 0 && n >= 8 {
            let w = header_word(head, 6);
            if w == 0x61 {
                DetectedFormat::Docx
            } else if w == 0x62 {
                DetectedFormat::Xlsx
            } else if w == 0x63 {
                DetectedFormat::Pptx
            } else {
                DetectedFormat::Zip
            }
        } else {
            DetectedFormat::Zip
        }
    } else if head[0] == 0x25 && head[1] == 0x50 && head[2] == 0x44 && head[3] == 0x46 {
        DetectedFormat::Pdf
    } else {
        DetectedFormat::Unknown
    }
}

fn byte_at(head: &[u8], i: usize) -> (b: u8)
    ensures
        b == header_byte(head@, i as int),
{
    if i < head.len() {
        head[i]
    } else {
        0
    }
}

/// The format that the first bytes of a file reveal.
pub fn detect_format_from_header(head: &[u8]) -> (f: DetectedFormat)
    ensures
        f == detect_format_spec(head@),
{
    let n = if head.len() < 8 { head.len() } else { 8 };
    if n < 4 {
        return DetectedFormat::Unknown;
    }
    if head[0] == 0x50 && head[1] == 0x4B && head[2] == 0x03 && head[3] == 0x04 {
        let extra: u32 = byte_at(head, 4) as u32 + 256 * (byte_at(head, 5) as u32);
        if extra != 0 {
            if n >= 8 {
                let extra2: u32 = byte_at(head, 6) as u32 + 256 * (byte_at(head, 7) as u32);
                if extra2 == 0x61 {
                    DetectedFormat::Docx
                } else if extra2 == 0x62 {
                    DetectedFormat::Xlsx
                } else if extra2 == 0x63 {
                    DetectedFormat::Pptx
                } else {
                    DetectedFormat::Zip
                }
            } else {
                DetectedFormat::Zip
            }
        } else {
            DetectedFormat::Zip
        }
    } else if head[0] == 0x25 && head[1] == 0x50 && head[2] == 0x44 && head[3] == 0x46 {
        DetectedFormat::Pdf
    } else {
        DetectedFormat::Unknown
    }
}

} // verus!
