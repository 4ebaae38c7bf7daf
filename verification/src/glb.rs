//! The binary (GLB) container envelope: a 12-byte header — the magic
//! bytes `glTF`, a little-endian version, a little-endian total length —
//! followed by chunks, each with a little-endian length and type tag.
//! The first chunk must carry the `JSON` tag; its payload, decoded as
//! UTF-8, is the document handed to the glTF decoder.

use vstd::prelude::*;
use vstd::bytes::{lemma_auto_spec_u32_to_from_le_bytes, spec_u32_from_le_bytes,
    spec_u32_to_le_bytes, u32_from_le_bytes};
use vstd::slice::{slice_subrange, slice_to_vec};
use vstd::utf8::{decode_utf8, valid_utf8};
use crate::gltf::{GlTf, GlTfView, spec_gltf_text};
use crate::json::Json;

verus! {

/// The magic number at the start of every container: the bytes `glTF`.
pub const GLB_MAGIC: u32 = 0x4654_6C67;

/// The type tag of the leading chunk: the bytes `JSON`.
pub const JSON_CHUNK_TAG: u32 = 0x4E4F_534A;

/// Why loading a binary container failed; each failure is distinct and no
/// partial document is ever returned.
#[derive(Debug, Clone, Copy, PartialEq, Eq, Structural)]
pub enum GLBError {
    /// The input ended before a whole header, chunk header, or chunk
    /// payload could be read.
    UnexpectedEnd,
    /// The file's magic number is incorrect. This probably is not a GLB.
    IncorrectMagicNumber,
    /// The file's formatting is incorrect: a first chunk that is not the
    /// JSON chunk, or a payload that is not UTF-8 text.
    IncorrectFormatting,
    /// The GLB's inner JSON is incorrectly formatted or could not be
    /// decoded as a glTF document.
    InvalidJSON,
}

/// A loaded binary container: its glTF document and the container
/// version from its header.
#[derive(Debug, Clone, PartialEq, Eq)]
pub struct GLB {
    pub gltf: GlTf,
    pub glb_version: u32,
}

/// A loaded container as the model sees it.
pub ghost struct GLBView {
    pub gltf: GlTfView,
    pub glb_version: u32,
}

impl View for GLB {
    type V = GLBView;

    open spec fn view(&self) -> GLBView {
        GLBView { gltf: self.gltf.deep_view(), glb_version: self.glb_version }
    }
}

/// What reading the container envelope yields: the header version and
/// the first chunk's payload, or the distinct failure met first — a
/// short read, a wrong magic number, or a first chunk that is not the
/// JSON chunk.
pub open spec fn spec_glb_container(data: Seq<u8>) -> Result<(u32, Seq<u8>), GLBError> {
    if data.len() < 4 {
        Err(GLBError::UnexpectedEnd)
    } else if spec_u32_from_le_bytes(data.subrange(0, 4)) != GLB_MAGIC {
        Err(GLBError::IncorrectMagicNumber)
    } else if data.len() < 20 {
        Err(GLBError::UnexpectedEnd)
    } else if spec_u32_from_le_bytes(data.subrange(16, 20)) != JSON_CHUNK_TAG {
        Err(GLBError::IncorrectFormatting)
    } else {
        let chunk_len = spec_u32_from_le_bytes(data.subrange(12, 16));
        if data.len() < 20 + chunk_len {
            Err(GLBError::UnexpectedEnd)
        } else {
            Ok(
                (
                    spec_u32_from_le_bytes(data.subrange(4, 8)),
                    data.subrange(20, 20 + chunk_len as int),
                ),
            )
        }
    }
}

/// What loading a whole container yields: the envelope read, the payload
/// decoded as UTF-8 text, and the text decoded as a glTF document, or
/// the distinct failure met first.
pub open spec fn spec_glb_from_bytes(data: Seq<u8>) -> Result<GLBView, GLBError> {
    match spec_glb_container(data) {
        Err(e) => Err(e),
        Ok((version, payload)) => if !valid_utf8(payload) {
            Err(GLBError::IncorrectFormatting)
        } else {
            match spec_gltf_text(decode_utf8(payload)) {
                None => Err(GLBError::InvalidJSON),
                Some(g) => Ok(GLBView { gltf: g, glb_version: version }),
            }
        },
    }
}

/// Relies on String::from_utf8: it accepts exactly the byte sequences
/// that are valid UTF-8 and decodes them to their characters.
#[verifier::external_body]
fn bytes_to_string(bytes: Vec<u8>) -> (r: Option<String>)
    ensures
        r is Some <==> valid_utf8(bytes@),
        r matches Some(s) ==> s@ == decode_utf8(bytes@),
{
    match String::from_utf8(bytes) {
        Ok(s) => Some(s),
        Err(_) => None,
    }
}

/// What extracting the container version and the parsed JSON document of
/// the leading chunk yields.
pub open spec fn spec_payload_document(data: Seq<u8>) -> Result<(u32, Json), GLBError> {
    match spec_glb_container(data) {
        Err(e) => Err(e),
        Ok((version, payload)) => if !valid_utf8(payload) {
            Err(GLBError::IncorrectFormatting)
        } else {
            match crate::json::spec_json_doc(decode_utf8(payload)) {
                None => Err(GLBError::InvalidJSON),
                Some(j) => Ok((version, j)),
            }
        },
    }
}

impl GLB {
    /// Reads the container envelope and parses the leading chunk's JSON
    /// payload, handing back the header version and the document tree.
    pub fn payload_document(data: &[u8]) -> (r: Result<(u32, Json), GLBError>)
        ensures
            r matches Ok(p) ==> spec_payload_document(data@) == Ok::<(u32, Json), GLBError>(p),
            r matches Err(e) ==> spec_payload_document(data@) == Err::<(u32, Json), GLBError>(e),
    {
        if data.len() < 4 {
            return Err(GLBError::UnexpectedEnd);
        }
        let magic = u32_from_le_bytes(slice_subrange(data, 0, 4));
        if magic != GLB_MAGIC {
            return Err(GLBError::IncorrectMagicNumber);
        }
        if data.len() < 20 {
            return Err(GLBError::UnexpectedEnd);
        }
        let chunk_type = u32_from_le_bytes(slice_subrange(data, 16, 20));
        if chunk_type != JSON_CHUNK_TAG {
            return Err(GLBError::IncorrectFormatting);
        }
        let chunk_len = u32_from_le_bytes(slice_subrange(data, 12, 16));
        if data.len() - 20 < chunk_len as usize {
            return Err(GLBError::UnexpectedEnd);
        }
        let glb_version = u32_from_le_bytes(slice_subrange(data, 4, 8));
        let payload = slice_to_vec(slice_subrange(data, 20, 20 + chunk_len as usize));
        let text = match bytes_to_string(payload) {
            Some(s) => s,
            None => {
                return Err(GLBError::IncorrectFormatting);
            },
        };
        match crate::json::parse_json(text.as_str()) {
            Some(j) => Ok((glb_version, j)),
            None => Err(GLBError::InvalidJSON),
        }
    }

    /// Loads a binary container from bytes.
    pub fn from_bytes(data: &[u8]) -> (r: Result<GLB, GLBError>)
        ensures
            r matches Ok(g) ==> spec_glb_from_bytes(data@) == Ok::<GLBView, GLBError>(g@),
            r matches Err(e) ==> spec_glb_from_bytes(data@) == Err::<GLBView, GLBError>(e),
    {
        let (glb_version, j) = match GLB::payload_document(data) {
            Ok(p) => p,
            Err(e) => {
                return Err(e);
            },
        };
        match GlTf::from_json_value(&j) {
            Some(gltf) => Ok(GLB { gltf, glb_version }),
            None => Err(GLBError::InvalidJSON),
        }
    }
}

/// The envelope for a JSON payload: magic, version, total length, then
/// the payload behind its chunk header.
pub open spec fn spec_glb_encode(version: u32, total_len: u32, payload: Seq<u8>) -> Seq<u8> {
    spec_u32_to_le_bytes(GLB_MAGIC) + spec_u32_to_le_bytes(version) + spec_u32_to_le_bytes(
        total_len,
    ) + spec_u32_to_le_bytes(payload.len() as u32) + spec_u32_to_le_bytes(JSON_CHUNK_TAG) + payload
}

/// Container round-trip: reading an encoded envelope yields exactly the
/// version and the payload that were put in.
pub proof fn lemma_glb_round_trip(version: u32, total_len: u32, payload: Seq<u8>)
    requires
        payload.len() <= u32::MAX,
    ensures
        spec_glb_container(spec_glb_encode(version, total_len, payload)) == Ok::<
            (u32, Seq<u8>),
            GLBError,
        >((version, payload)),
{
    lemma_auto_spec_u32_to_from_le_bytes();
    let data = spec_glb_encode(version, total_len, payload);
    assert(data.subrange(0, 4) =~= spec_u32_to_le_bytes(GLB_MAGIC));
    assert(data.subrange(4, 8) =~= spec_u32_to_le_bytes(version));
    assert(data.subrange(12, 16) =~= spec_u32_to_le_bytes(payload.len() as u32));
    assert(data.subrange(16, 20) =~= spec_u32_to_le_bytes(JSON_CHUNK_TAG));
    assert(data.subrange(20, 20 + payload.len() as int) =~= payload);
}

} // verus!
