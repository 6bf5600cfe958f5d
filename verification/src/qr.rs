use vstd::prelude::*;
use crate::matrix::ModuleMatrix;
use crate::QrError;

verus! {

/// Error-correction strength of the matrix encoder, weakest to strongest.
#[derive(Clone, Copy, PartialEq, Eq, Structural, Debug)]
pub enum EcLevel {
    L,
    M,
    Q,
    H,
}

impl EcLevel {
    /// A numeric tag for each level, used to index the encoder's abstract
    /// result.
    pub open spec fn code(self) -> int {
        match self {
            EcLevel::L => 0,
            EcLevel::M => 1,
            EcLevel::Q => 2,
            EcLevel::H => 3,
        }
    }
}

pub uninterp spec fn qr_modules(text: Seq<char>, ec: int) -> (int, Seq<bool>);

pub uninterp spec fn qr_encodable(text: Seq<char>, ec: int) -> bool;

/// Relies on qrcode::QrCode::with_error_correction_level: it encodes the
/// text into the smallest fitting standard module grid at the given level,
/// whose side is 4 * version + 17 for versions 1 through 40, and
/// into_colors hands back the side * side module colors row-major. Whether
/// the text fits any version is a function of the text and level alone.
#[verifier::external_body]
fn qr_encode_raw(text: &str, ec: EcLevel) -> (r: Result<(usize, Vec<bool>), QrError>)
    ensures
        match r {
            Ok(p) => qr_encodable(text@, ec.code()) && 1 <= p.0 <= 177 && p.1@.len() == p.0 * p.0
                && (p.0 as int, p.1@) == qr_modules(text@, ec.code()),
            Err(e) => !qr_encodable(text@, ec.code()) && e == QrError::MatrixEncodingError,
        },
{
    let level = match ec {
        EcLevel::L => qrcode::EcLevel::L,
        EcLevel::M => qrcode::EcLevel::M,
        EcLevel::Q => qrcode::EcLevel::Q,
        EcLevel::H => qrcode::EcLevel::H,
    };
    let code = qrcode::QrCode::with_error_correction_level(text, level).map_err(
        |_| QrError::MatrixEncodingError,
    )?;
    let width = code.width();
    let cells = code.into_colors().into_iter().map(|c| matches!(c, qrcode::Color::Dark)).collect();
    Ok((width, cells))
}

/// Runs the external matrix encoder and wraps its output as a module
/// matrix. Fails with `MatrixEncodingError` exactly when the encoder
/// rejects the text (for example, text too long for any version).
pub fn encode_matrix(text: &str, ec: EcLevel) -> (r: Result<ModuleMatrix, QrError>)
    ensures
        r is Ok <==> qr_encodable(text@, ec.code()),
        r is Ok ==> r->Ok_0.wf() && r->Ok_0.side() <= 177 && (
        r->Ok_0.side(),
        r->Ok_0.cells@,
        ) == qr_modules(text@, ec.code()),
        r is Err ==> r == Err::<ModuleMatrix, QrError>(QrError::MatrixEncodingError),
{
    match qr_encode_raw(text, ec) {
        Ok((width, cells)) => Ok(ModuleMatrix::from_cells(width, cells)),
        Err(e) => Err(e),
    }
}

} // verus!
