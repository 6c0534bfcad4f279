//! Text codecs applied to captured bytes when rendering.

use crate::errors::SpError;
use vstd::prelude::*;
use vstd::utf8::{decode_utf8, valid_utf8};

verus! {

/// The text decoding schemes a caller can select for rendering.
#[derive(Clone, Copy, Debug, PartialEq, Eq, Structural)]
pub enum MsgCode {
    GBK,
    UTF8,
}

/// What `encoding_rs::GBK.decode` returns for the given bytes. The decoder
/// is a function of the bytes alone: malformed sequences come out as the
/// replacement character, so it never fails.
pub uninterp spec fn gbk_decoded(bytes: Seq<u8>) -> Seq<char>;

/// Relies on `encoding_rs::GBK.decode`: decodes the whole buffer, replacing
/// malformed sequences with the replacement character. The length bound keeps
/// the decoder's output-buffer size calculation (a few times the input
/// length) from overflowing `usize`, the one case in which it panics.
#[verifier::external_body]
fn gbk_decode(msg: &Vec<u8>) -> (r: String)
    requires
        msg@.len() <= u32::MAX,
    ensures
        r@ == gbk_decoded(msg@),
{
    encoding_rs::GBK.decode(msg.as_slice()).0.to_string()
}

/// Relies on `String::from_utf8` (std): returns `Ok` exactly when the bytes
/// are valid UTF-8, and then the string holds their decoding.
#[verifier::external_body]
fn utf8_decode(msg: &Vec<u8>) -> (r: Option<String>)
    ensures
        r is Some <==> valid_utf8(msg@),
        r matches Some(s) ==> s@ == decode_utf8(msg@),
{
    match String::from_utf8(msg.clone()) {
        Ok(s) => Some(s),
        Err(_) => None,
    }
}

/// The text a chunk renders as under a codec: GBK decoding never fails,
/// while bytes that are not valid UTF-8 have no UTF-8 rendering and
/// degrade to the empty string.
pub open spec fn decoded_text(code: MsgCode, bytes: Seq<u8>) -> Seq<char> {
    match code {
        MsgCode::GBK => gbk_decoded(bytes),
        MsgCode::UTF8 => if valid_utf8(bytes) {
            decode_utf8(bytes)
        } else {
            Seq::empty()
        },
    }
}

impl MsgCode {
    /// Decodes a chunk under this codec; only UTF8 can refuse bytes.
    pub fn to_code_string(&self, msg: &Vec<u8>) -> (r: Result<String, SpError>)
        requires
            msg@.len() <= u32::MAX,
        ensures
            *self is GBK ==> (r matches Ok(s) && s@ == gbk_decoded(msg@)),
            *self is UTF8 && valid_utf8(msg@) ==> (r matches Ok(s) && s@ == decode_utf8(msg@)),
            *self is UTF8 && !valid_utf8(msg@) ==> r == Err::<String, SpError>(
                SpError::DecodeFailure,
            ),
    {
        match self {
            MsgCode::GBK => Ok(gbk_decode(msg)),
            MsgCode::UTF8 => match utf8_decode(msg) {
                Some(s) => Ok(s),
                None => Err(SpError::DecodeFailure),
            },
        }
    }
}

/// Decodes a chunk for display: a chunk its codec cannot decode renders as
/// the empty string instead of aborting the render.
pub fn decode_or_empty(code: &MsgCode, msg: &Vec<u8>) -> (r: String)
    requires
        msg@.len() <= u32::MAX,
    ensures
        r@ == decoded_text(*code, msg@),
{
    match code.to_code_string(msg) {
        Ok(s) => s,
        Err(_) => String::new(),
    }
}

} // verus!
