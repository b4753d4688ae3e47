//! The QR code shown for a scan login, as PNG bytes.

use vstd::prelude::*;
use image::{ImageFormat, Luma};
use qrcode::QrCode;

verus! {

/// The PNG that qrcode and image make of a link: `QrCode::new`, rendered in
/// grey at least `size` by `size` pixels, encoded with `write_to` as PNG;
/// `None` where the link cannot be encoded.
pub uninterp spec fn qr_png(url: Seq<char>, size: int) -> Option<Seq<u8>>;

/// The least width and height of the QR code image, in pixels.
pub const QR_SIZE: u32 = 200;

/// The QR code of a link as PNG bytes (qrcode `QrCode::new` and `render`,
/// image `write_to`; the intermediate values are of generic types of those
/// crates, so the chain is one call here).
#[verifier::external_body]
fn qr_png_bytes(url: &str, size: u32) -> (r: Option<Vec<u8>>)
    ensures
        r matches Some(b) ==> qr_png(url@, size as int) == Some(b@),
        r is None ==> qr_png(url@, size as int) is None,
{
    let code = QrCode::new(url.as_bytes()).ok()?;
    let image = code.render::<Luma<u8>>().min_dimensions(size, size).build();
    let mut buf = Vec::new();
    image.write_to(&mut std::io::Cursor::new(&mut buf), ImageFormat::Png).ok()?;
    Some(buf)
}

/// Why a QR code could not be made.
#[derive(Debug)]
pub enum QrError {
    /// The link is too long for a QR code, or the image could not be encoded.
    Encode,
}

/// The QR code of a link as PNG bytes.
pub fn render_qr_png(url: &str) -> (r: Result<Vec<u8>, QrError>)
    ensures
        match r {
            Ok(b) => qr_png(url@, QR_SIZE as int) == Some(b@),
            Err(_) => qr_png(url@, QR_SIZE as int) is None,
        },
{
    match qr_png_bytes(url, QR_SIZE) {
        Some(b) => Ok(b),
        None => Err(QrError::Encode),
    }
}

} // verus!
