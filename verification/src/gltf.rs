//! The glTF document model and its decoders.
//!
//! Each type decodes from a parsed JSON node under the field rules the
//! schema compiler derives: a field named in `required` must be present
//! and well-typed or the whole object fails to decode, while an absent or
//! ill-typed optional field falls back to its default — an empty sequence
//! for arrays, an absent value otherwise.
//!
//! Types whose fields carry floating-point data (accessors, animation
//! curves, cameras, materials, meshes, nodes, samplers) are left to
//! unverified callers; the document root here keeps its float-free
//! fields.

use vstd::prelude::*;
use crate::json::{Json, json_get, json_get_str, parse_json, spec_json_doc};
use crate::text::int_of_num_text;
use crate::parser::spec_opt_int;

verus! {

/// Dictionary object with extension-specific objects; decoding records
/// only its presence as a well-formed object.
#[derive(Debug, Clone, PartialEq, Eq, Structural)]
pub struct Extension {}

/// The value of an optional extension-dictionary field: present and an
/// object, or nothing.
pub open spec fn spec_ext_field(j: Json, key: Seq<char>) -> Option<Extension> {
    match json_get(j, key) {
        Some(Json::Obj(_)) => Some(Extension {  }),
        _ => None,
    }
}

fn ext_field(j: &Json, key: &str) -> (r: Option<Extension>)
    ensures
        r == spec_ext_field(*j, key@),
{
    match j.get(key) {
        Some(v) => match v {
            Json::Obj(_) => Some(Extension {  }),
            _ => None,
        },
        None => None,
    }
}

/// The value of an optional non-negative index field.
pub open spec fn spec_opt_usize(j: Json, key: Seq<char>) -> Option<usize> {
    match json_get(j, key) {
        Some(Json::Num(t)) => match int_of_num_text(t@) {
            Some(n) => if 0 <= n <= usize::MAX {
                Some(n as usize)
            } else {
                None
            },
            None => None,
        },
        _ => None,
    }
}

fn opt_usize(j: &Json, key: &str) -> (r: Option<usize>)
    ensures
        r == spec_opt_usize(*j, key@),
{
    match j.get(key) {
        Some(v) => match v {
            Json::Num(t) => match crate::text::parse_i64(t.as_str()) {
                Some(n) => {
                    if n >= 0 && (n as u64) <= (usize::MAX as u64) {
                        Some(n as usize)
                    } else {
                        None
                    }
                },
                None => None,
            },
            _ => None,
        },
        None => None,
    }
}

fn opt_string(j: &Json, key: &str) -> (r: Option<String>)
    ensures
        r == json_get_str(*j, key@),
{
    match j.get(key) {
        Some(v) => match v {
            Json::Str(s) => Some(s.clone()),
            _ => None,
        },
        None => None,
    }
}

/// Metadata about the glTF asset. `version` is required; everything else
/// is optional.
#[derive(Debug, Clone, PartialEq, Eq)]
pub struct Asset {
    /// A copyright message suitable for display to credit the content creator.
    pub copyright: Option<String>,
    /// Tool that generated this glTF model.
    pub generator: Option<String>,
    /// The glTF version that this asset targets.
    pub version: String,
    /// The minimum glTF version that this asset targets.
    pub min_version: Option<String>,
    /// Dictionary object with extension-specific objects.
    pub extensions: Option<Extension>,
}

/// What decoding an asset object yields: nothing unless the node is an
/// object whose required `version` holds a string.
pub open spec fn spec_asset(j: Json) -> Option<Asset> {
    if !(j is Obj) {
        None
    } else {
        match json_get_str(j, "version"@) {
            None => None,
            Some(version) => Some(
                Asset {
                    copyright: json_get_str(j, "copyright"@),
                    generator: json_get_str(j, "generator"@),
                    version: version,
                    min_version: json_get_str(j, "minVersion"@),
                    extensions: spec_ext_field(j, "extensions"@),
                },
            ),
        }
    }
}

impl Asset {
    /// Decodes an asset object.
    pub fn from_json_value(j: &Json) -> (r: Option<Asset>)
        ensures
            r == spec_asset(*j),
    {
        match j {
            Json::Obj(_) => {},
            _ => {
                return None;
            },
        }
        let version = match opt_string(j, "version") {
            Some(v) => v,
            None => {
                return None;
            },
        };
        Some(
            Asset {
                copyright: opt_string(j, "copyright"),
                generator: opt_string(j, "generator"),
                version,
                min_version: opt_string(j, "minVersion"),
                extensions: ext_field(j, "extensions"),
            },
        )
    }
}

/// A buffer points to binary geometry, animation, or skins. `byteLength`
/// is required.
#[derive(Debug, Clone, PartialEq, Eq)]
pub struct Buffer {
    /// The uri of the buffer.
    pub uri: Option<String>,
    /// The length of the buffer in bytes.
    pub byte_length: usize,
    /// The user-defined name of this object.
    pub name: Option<String>,
    /// Dictionary object with extension-specific objects.
    pub extensions: Option<Extension>,
}

/// What decoding a buffer object yields.
pub open spec fn spec_buffer(j: Json) -> Option<Buffer> {
    if !(j is Obj) {
        None
    } else {
        match spec_opt_usize(j, "byteLength"@) {
            None => None,
            Some(byte_length) => Some(
                Buffer {
                    uri: json_get_str(j, "uri"@),
                    byte_length: byte_length,
                    name: json_get_str(j, "name"@),
                    extensions: spec_ext_field(j, "extensions"@),
                },
            ),
        }
    }
}

impl Buffer {
    /// Decodes a buffer object.
    pub fn from_json_value(j: &Json) -> (r: Option<Buffer>)
        ensures
            r == spec_buffer(*j),
    {
        match j {
            Json::Obj(_) => {},
            _ => {
                return None;
            },
        }
        let byte_length = match opt_usize(j, "byteLength") {
            Some(v) => v,
            None => {
                return None;
            },
        };
        Some(
            Buffer {
                uri: opt_string(j, "uri"),
                byte_length,
                name: opt_string(j, "name"),
                extensions: ext_field(j, "extensions"),
            },
        )
    }
}

/// The target that the GPU buffer should be bound to.
#[derive(Debug, Clone, Copy, PartialEq, Eq, Structural)]
pub enum BufferViewTarget {
    ArrayBuffer,
    ElementArrayBuffer,
}

/// What an optional buffer-view target field decodes to: one of the two
/// recognized GPU binding codes.
pub open spec fn spec_bv_target(j: Json, key: Seq<char>) -> Option<BufferViewTarget> {
    match json_get(j, key) {
        Some(Json::Num(t)) => match int_of_num_text(t@) {
            Some(n) => if n == 34962 {
                Some(BufferViewTarget::ArrayBuffer)
            } else if n == 34963 {
                Some(BufferViewTarget::ElementArrayBuffer)
            } else {
                None
            },
            None => None,
        },
        _ => None,
    }
}

fn bv_target(j: &Json, key: &str) -> (r: Option<BufferViewTarget>)
    ensures
        r == spec_bv_target(*j, key@),
{
    match j.get(key) {
        Some(v) => match v {
            Json::Num(t) => match crate::text::parse_i64(t.as_str()) {
                Some(n) => {
                    if n == 34962 {
                        Some(BufferViewTarget::ArrayBuffer)
                    } else if n == 34963 {
                        Some(BufferViewTarget::ElementArrayBuffer)
                    } else {
                        None
                    }
                },
                None => None,
            },
            _ => None,
        },
        None => None,
    }
}

/// A view into a buffer. `buffer` and `byteLength` are required.
#[derive(Debug, Clone, PartialEq, Eq)]
pub struct BufferView {
    /// The index of the buffer.
    pub buffer: usize,
    /// The offset into the buffer in bytes.
    pub byte_offset: Option<usize>,
    /// The length of the bufferView in bytes.
    pub byte_length: usize,
    /// The stride, in bytes.
    pub byte_stride: Option<usize>,
    /// The target that the GPU buffer should be bound to.
    pub target: Option<BufferViewTarget>,
    /// The user-defined name of this object.
    pub name: Option<String>,
    /// Dictionary object with extension-specific objects.
    pub extensions: Option<Extension>,
}

/// What decoding a buffer-view object yields.
pub open spec fn spec_buffer_view(j: Json) -> Option<BufferView> {
    if !(j is Obj) {
        None
    } else {
        match (spec_opt_usize(j, "buffer"@), spec_opt_usize(j, "byteLength"@)) {
            (Some(buffer), Some(byte_length)) => Some(
                BufferView {
                    buffer: buffer,
                    byte_offset: spec_opt_usize(j, "byteOffset"@),
                    byte_length: byte_length,
                    byte_stride: spec_opt_usize(j, "byteStride"@),
                    target: spec_bv_target(j, "target"@),
                    name: json_get_str(j, "name"@),
                    extensions: spec_ext_field(j, "extensions"@),
                },
            ),
            _ => None,
        }
    }
}

impl BufferView {
    /// Decodes a buffer-view object.
    pub fn from_json_value(j: &Json) -> (r: Option<BufferView>)
        ensures
            r == spec_buffer_view(*j),
    {
        match j {
            Json::Obj(_) => {},
            _ => {
                return None;
            },
        }
        let buffer = match opt_usize(j, "buffer") {
            Some(v) => v,
            None => {
                return None;
            },
        };
        let byte_length = match opt_usize(j, "byteLength") {
            Some(v) => v,
            None => {
                return None;
            },
        };
        Some(
            BufferView {
                buffer,
                byte_offset: opt_usize(j, "byteOffset"),
                byte_length,
                byte_stride: opt_usize(j, "byteStride"),
                target: bv_target(j, "target"),
                name: opt_string(j, "name"),
                extensions: ext_field(j, "extensions"),
            },
        )
    }
}

/// The image's MIME type.
#[derive(Debug, Clone, Copy, PartialEq, Eq, Structural)]
pub enum ImageMimeType {
    ImageJpeg,
    ImagePng,
}

/// What an optional MIME-type field decodes to: one of the two recognized
/// type names.
pub open spec fn spec_mime_type(j: Json, key: Seq<char>) -> Option<ImageMimeType> {
    match json_get_str(j, key) {
        Some(s) => if s@ == "image/jpeg"@ {
            Some(ImageMimeType::ImageJpeg)
        } else if s@ == "image/png"@ {
            Some(ImageMimeType::ImagePng)
        } else {
            None
        },
        None => None,
    }
}

fn mime_type(j: &Json, key: &str) -> (r: Option<ImageMimeType>)
    ensures
        r == spec_mime_type(*j, key@),
{
    match j.get(key) {
        Some(v) => match v {
            Json::Str(s) => {
                if crate::text::str_eq(s.as_str(), "image/jpeg") {
                    Some(ImageMimeType::ImageJpeg)
                } else if crate::text::str_eq(s.as_str(), "image/png") {
                    Some(ImageMimeType::ImagePng)
                } else {
                    None
                }
            },
            _ => None,
        },
        None => None,
    }
}

/// Image data used to create a texture; all fields are optional.
#[derive(Debug, Clone, PartialEq, Eq)]
pub struct Image {
    /// The uri of the image.
    pub uri: Option<String>,
    /// The image's MIME type.
    pub mime_type: Option<ImageMimeType>,
    /// The index of the bufferView that contains the image.
    pub buffer_view: Option<usize>,
    /// The user-defined name of this object.
    pub name: Option<String>,
    /// Dictionary object with extension-specific objects.
    pub extensions: Option<Extension>,
}

/// What decoding an image object yields.
pub open spec fn spec_image(j: Json) -> Option<Image> {
    if !(j is Obj) {
        None
    } else {
        Some(
            Image {
                uri: json_get_str(j, "uri"@),
                mime_type: spec_mime_type(j, "mimeType"@),
                buffer_view: spec_opt_usize(j, "bufferView"@),
                name: json_get_str(j, "name"@),
                extensions: spec_ext_field(j, "extensions"@),
            },
        )
    }
}

impl Image {
    /// Decodes an image object.
    pub fn from_json_value(j: &Json) -> (r: Option<Image>)
        ensures
            r == spec_image(*j),
    {
        match j {
            Json::Obj(_) => {},
            _ => {
                return None;
            },
        }
        Some(
            Image {
                uri: opt_string(j, "uri"),
                mime_type: mime_type(j, "mimeType"),
                buffer_view: opt_usize(j, "bufferView"),
                name: opt_string(j, "name"),
                extensions: ext_field(j, "extensions"),
            },
        )
    }
}

/// A texture and its sampler; all fields are optional.
#[derive(Debug, Clone, PartialEq, Eq)]
pub struct Texture {
    /// The index of the sampler used by this texture.
    pub sampler: Option<usize>,
    /// The index of the image used by this texture.
    pub source: Option<usize>,
    /// The user-defined name of this object.
    pub name: Option<String>,
    /// Dictionary object with extension-specific objects.
    pub extensions: Option<Extension>,
}

/// What decoding a texture object yields.
pub open spec fn spec_texture(j: Json) -> Option<Texture> {
    if !(j is Obj) {
        None
    } else {
        Some(
            Texture {
                sampler: spec_opt_usize(j, "sampler"@),
                source: spec_opt_usize(j, "source"@),
                name: json_get_str(j, "name"@),
                extensions: spec_ext_field(j, "extensions"@),
            },
        )
    }
}

impl Texture {
    /// Decodes a texture object.
    pub fn from_json_value(j: &Json) -> (r: Option<Texture>)
        ensures
            r == spec_texture(*j),
    {
        match j {
            Json::Obj(_) => {},
            _ => {
                return None;
            },
        }
        Some(
            Texture {
                sampler: opt_usize(j, "sampler"),
                source: opt_usize(j, "source"),
                name: opt_string(j, "name"),
                extensions: ext_field(j, "extensions"),
            },
        )
    }
}

/// What one array element decodes to as a non-negative index.
pub open spec fn spec_usize_item(j: Json) -> Option<usize> {
    match j {
        Json::Num(t) => match int_of_num_text(t@) {
            Some(n) => if 0 <= n <= usize::MAX {
                Some(n as usize)
            } else {
                None
            },
            None => None,
        },
        _ => None,
    }
}

/// What an array of indices decodes to: every element must decode.
pub open spec fn spec_usize_items(items: Seq<Json>) -> Option<Seq<usize>>
    decreases items.len(),
{
    if items.len() == 0 {
        Some(Seq::empty())
    } else {
        match (spec_usize_item(items[0]), spec_usize_items(items.drop_first())) {
            (Some(v), Some(rest)) => Some(seq![v] + rest),
            _ => None,
        }
    }
}

/// The value of an optional array-of-indices field.
pub open spec fn spec_usize_vec_field(j: Json, key: Seq<char>) -> Option<Seq<usize>> {
    match json_get(j, key) {
        Some(Json::Arr(items)) => spec_usize_items(items@),
        _ => None,
    }
}

fn usize_items(items: &Vec<Json>) -> (r: Option<Vec<usize>>)
    ensures
        r matches Some(v) ==> spec_usize_items(items@) == Some(v@),
        r is None <==> spec_usize_items(items@) is None,
{
    let n = items.len();
    let mut acc: Vec<usize> = Vec::new();
    let mut i: usize = 0;
    assert(items@.skip(0) =~= items@);
    while i < n
        invariant
            i <= n,
            n == items@.len(),
            match spec_usize_items(items@.skip(i as int)) {
                Some(rest) => spec_usize_items(items@) == Some(acc@ + rest),
                None => spec_usize_items(items@) is None,
            },
            spec_usize_items(items@) is None ==> spec_usize_items(items@.skip(i as int)) is None,
        decreases n - i,
    {
        assert(items@.skip(i as int)[0] == items@[i as int]);
        assert(items@.skip(i as int).drop_first() =~= items@.skip(i as int + 1));
        let v: usize = match &items[i] {
            Json::Num(t) => match crate::text::parse_i64(t.as_str()) {
                Some(n0) => {
                    if n0 >= 0 && (n0 as u64) <= (usize::MAX as u64) {
                        n0 as usize
                    } else {
                        return None;
                    }
                },
                None => {
                    return None;
                },
            },
            _ => {
                return None;
            },
        };
        let ghost old_acc = acc@;
        acc.push(v);
        proof {
            assert(acc@ =~= old_acc + seq![v]);
            match spec_usize_items(items@.skip(i as int + 1)) {
                Some(rest) => {
                    assert(old_acc + (seq![v] + rest) =~= acc@ + rest);
                },
                None => {},
            }
        }
        i = i + 1;
    }
    assert(items@.skip(n as int).len() == 0);
    assert(acc@ + Seq::<usize>::empty() =~= acc@);
    Some(acc)
}

fn usize_vec_field(j: &Json, key: &str) -> (r: Option<Vec<usize>>)
    ensures
        r matches Some(v) ==> spec_usize_vec_field(*j, key@) == Some(v@),
        r is None <==> spec_usize_vec_field(*j, key@) is None,
{
    match j.get(key) {
        Some(v) => match v {
            Json::Arr(items) => usize_items(items),
            _ => None,
        },
        None => None,
    }
}

/// What an array of strings decodes to: every element must be a string.
pub open spec fn spec_string_items(items: Seq<Json>) -> Option<Seq<String>>
    decreases items.len(),
{
    if items.len() == 0 {
        Some(Seq::empty())
    } else {
        match (items[0], spec_string_items(items.drop_first())) {
            (Json::Str(s), Some(rest)) => Some(seq![s] + rest),
            _ => None,
        }
    }
}

/// The value of an optional array-of-strings field.
pub open spec fn spec_string_vec_field(j: Json, key: Seq<char>) -> Option<Seq<String>> {
    match json_get(j, key) {
        Some(Json::Arr(items)) => spec_string_items(items@),
        _ => None,
    }
}

fn string_items(items: &Vec<Json>) -> (r: Option<Vec<String>>)
    ensures
        r matches Some(v) ==> spec_string_items(items@) == Some(v@),
        r is None <==> spec_string_items(items@) is None,
{
    let n = items.len();
    let mut acc: Vec<String> = Vec::new();
    let mut i: usize = 0;
    assert(items@.skip(0) =~= items@);
    while i < n
        invariant
            i <= n,
            n == items@.len(),
            match spec_string_items(items@.skip(i as int)) {
                Some(rest) => spec_string_items(items@) == Some(acc@ + rest),
                None => spec_string_items(items@) is None,
            },
            spec_string_items(items@) is None ==> spec_string_items(items@.skip(i as int)) is None,
        decreases n - i,
    {
        assert(items@.skip(i as int)[0] == items@[i as int]);
        assert(items@.skip(i as int).drop_first() =~= items@.skip(i as int + 1));
        let v: String = match &items[i] {
            Json::Str(s) => s.clone(),
            _ => {
                return None;
            },
        };
        let ghost old_acc = acc@;
        acc.push(v);
        proof {
            assert(acc@ =~= old_acc + seq![items@[i as int]->Str_0]);
            match spec_string_items(items@.skip(i as int + 1)) {
                Some(rest) => {
                    assert(old_acc + (seq![items@[i as int]->Str_0] + rest) =~= acc@ + rest);
                },
                None => {},
            }
        }
        i = i + 1;
    }
    assert(items@.skip(n as int).len() == 0);
    assert(acc@ + Seq::<String>::empty() =~= acc@);
    Some(acc)
}

fn string_vec_field(j: &Json, key: &str) -> (r: Option<Vec<String>>)
    ensures
        r matches Some(v) ==> spec_string_vec_field(*j, key@) == Some(v@),
        r is None <==> spec_string_vec_field(*j, key@) is None,
{
    match j.get(key) {
        Some(v) => match v {
            Json::Arr(items) => string_items(items),
            _ => None,
        },
        None => None,
    }
}

/// The root nodes of a scene; `nodes` defaults to the empty sequence.
#[derive(Debug, Clone, PartialEq, Eq)]
pub struct Scene {
    /// The indices of each root node.
    pub nodes: Vec<usize>,
    /// The user-defined name of this object.
    pub name: Option<String>,
    /// Dictionary object with extension-specific objects.
    pub extensions: Option<Extension>,
}

/// A scene as the model sees it.
pub ghost struct SceneView {
    pub nodes: Seq<usize>,
    pub name: Option<String>,
    pub extensions: Option<Extension>,
}

impl View for Scene {
    type V = SceneView;

    open spec fn view(&self) -> SceneView {
        SceneView { nodes: self.nodes@, name: self.name, extensions: self.extensions }
    }
}

impl DeepView for Scene {
    type V = SceneView;

    open spec fn deep_view(&self) -> SceneView {
        self@
    }
}

/// What decoding a scene object yields; an absent or ill-formed `nodes`
/// falls back to the empty sequence.
pub open spec fn spec_scene(j: Json) -> Option<SceneView> {
    if !(j is Obj) {
        None
    } else {
        Some(
            SceneView {
                nodes: match spec_usize_vec_field(j, "nodes"@) {
                    Some(s) => s,
                    None => Seq::empty(),
                },
                name: json_get_str(j, "name"@),
                extensions: spec_ext_field(j, "extensions"@),
            },
        )
    }
}

impl Scene {
    /// Decodes a scene object.
    pub fn from_json_value(j: &Json) -> (r: Option<Scene>)
        ensures
            r matches Some(s) ==> spec_scene(*j) == Some(s@),
            r is None <==> spec_scene(*j) is None,
    {
        match j {
            Json::Obj(_) => {},
            _ => {
                return None;
            },
        }
        let nodes = match usize_vec_field(j, "nodes") {
            Some(v) => v,
            None => Vec::new(),
        };
        Some(Scene { nodes, name: opt_string(j, "name"), extensions: ext_field(j, "extensions") })
    }
}

/// Joints and matrices defining a skin; `joints` is required.
#[derive(Debug, Clone, PartialEq, Eq)]
pub struct Skin {
    /// The index of the accessor containing the inverse-bind matrices.
    pub inverse_bind_matrices: Option<usize>,
    /// The index of the node used as a skeleton root.
    pub skeleton: Option<usize>,
    /// Indices of skeleton nodes, used as joints in this skin.
    pub joints: Vec<usize>,
    /// The user-defined name of this object.
    pub name: Option<String>,
    /// Dictionary object with extension-specific objects.
    pub extensions: Option<Extension>,
}

/// A skin as the model sees it.
pub ghost struct SkinView {
    pub inverse_bind_matrices: Option<usize>,
    pub skeleton: Option<usize>,
    pub joints: Seq<usize>,
    pub name: Option<String>,
    pub extensions: Option<Extension>,
}

impl View for Skin {
    type V = SkinView;

    open spec fn view(&self) -> SkinView {
        SkinView {
            inverse_bind_matrices: self.inverse_bind_matrices,
            skeleton: self.skeleton,
            joints: self.joints@,
            name: self.name,
            extensions: self.extensions,
        }
    }
}

impl DeepView for Skin {
    type V = SkinView;

    open spec fn deep_view(&self) -> SkinView {
        self@
    }
}

/// What decoding a skin object yields: nothing unless the required
/// `joints` array decodes.
pub open spec fn spec_skin(j: Json) -> Option<SkinView> {
    if !(j is Obj) {
        None
    } else {
        match spec_usize_vec_field(j, "joints"@) {
            None => None,
            Some(joints) => Some(
                SkinView {
                    inverse_bind_matrices: spec_opt_usize(j, "inverseBindMatrices"@),
                    skeleton: spec_opt_usize(j, "skeleton"@),
                    joints: joints,
                    name: json_get_str(j, "name"@),
                    extensions: spec_ext_field(j, "extensions"@),
                },
            ),
        }
    }
}

impl Skin {
    /// Decodes a skin object.
    pub fn from_json_value(j: &Json) -> (r: Option<Skin>)
        ensures
            r matches Some(s) ==> spec_skin(*j) == Some(s@),
            r is None <==> spec_skin(*j) is None,
    {
        match j {
            Json::Obj(_) => {},
            _ => {
                return None;
            },
        }
        let joints = match usize_vec_field(j, "joints") {
            Some(v) => v,
            None => {
                return None;
            },
        };
        Some(
            Skin {
                inverse_bind_matrices: opt_usize(j, "inverseBindMatrices"),
                skeleton: opt_usize(j, "skeleton"),
                joints,
                name: opt_string(j, "name"),
                extensions: ext_field(j, "extensions"),
            },
        )
    }
}

/// What an array of buffer objects decodes to: every element must decode.
pub open spec fn spec_buffer_items(items: Seq<Json>) -> Option<Seq<Buffer>>
    decreases items.len(),
{
    if items.len() == 0 {
        Some(Seq::empty())
    } else {
        match (spec_buffer(items[0]), spec_buffer_items(items.drop_first())) {
            (Some(v), Some(rest)) => Some(seq![v] + rest),
            _ => None,
        }
    }
}

fn buffer_items(items: &Vec<Json>) -> (r: Option<Vec<Buffer>>)
    ensures
        r matches Some(v) ==> spec_buffer_items(items@) == Some(v@),
        r is None <==> spec_buffer_items(items@) is None,
{
    let n = items.len();
    let mut acc: Vec<Buffer> = Vec::new();
    let mut i: usize = 0;
    assert(items@.skip(0) =~= items@);
    while i < n
        invariant
            i <= n,
            n == items@.len(),
            match spec_buffer_items(items@.skip(i as int)) {
                Some(rest) => spec_buffer_items(items@) == Some(acc@ + rest),
                None => spec_buffer_items(items@) is None,
            },
            spec_buffer_items(items@) is None ==> spec_buffer_items(items@.skip(i as int)) is None,
        decreases n - i,
    {
        assert(items@.skip(i as int)[0] == items@[i as int]);
        assert(items@.skip(i as int).drop_first() =~= items@.skip(i as int + 1));
        let v = match Buffer::from_json_value(&items[i]) {
            Some(v) => v,
            None => {
                return None;
            },
        };
        let ghost old_acc = acc@;
        acc.push(v);
        proof {
            assert(acc@ =~= old_acc + seq![acc@.last()]);
            match spec_buffer_items(items@.skip(i as int + 1)) {
                Some(rest) => {
                    assert(old_acc + (seq![acc@.last()] + rest) =~= acc@ + rest);
                },
                None => {},
            }
        }
        i = i + 1;
    }
    assert(items@.skip(n as int).len() == 0);
    assert(acc@ + Seq::<Buffer>::empty() =~= acc@);
    Some(acc)
}

/// What an array of buffer-view objects decodes to.
pub open spec fn spec_buffer_view_items(items: Seq<Json>) -> Option<Seq<BufferView>>
    decreases items.len(),
{
    if items.len() == 0 {
        Some(Seq::empty())
    } else {
        match (spec_buffer_view(items[0]), spec_buffer_view_items(items.drop_first())) {
            (Some(v), Some(rest)) => Some(seq![v] + rest),
            _ => None,
        }
    }
}

fn buffer_view_items(items: &Vec<Json>) -> (r: Option<Vec<BufferView>>)
    ensures
        r matches Some(v) ==> spec_buffer_view_items(items@) == Some(v@),
        r is None <==> spec_buffer_view_items(items@) is None,
{
    let n = items.len();
    let mut acc: Vec<BufferView> = Vec::new();
    let mut i: usize = 0;
    assert(items@.skip(0) =~= items@);
    while i < n
        invariant
            i <= n,
            n == items@.len(),
            match spec_buffer_view_items(items@.skip(i as int)) {
                Some(rest) => spec_buffer_view_items(items@) == Some(acc@ + rest),
                None => spec_buffer_view_items(items@) is None,
            },
            spec_buffer_view_items(items@) is None ==> spec_buffer_view_items(
                items@.skip(i as int),
            ) is None,
        decreases n - i,
    {
        assert(items@.skip(i as int)[0] == items@[i as int]);
        assert(items@.skip(i as int).drop_first() =~= items@.skip(i as int + 1));
        let v = match BufferView::from_json_value(&items[i]) {
            Some(v) => v,
            None => {
                return None;
            },
        };
        let ghost old_acc = acc@;
        acc.push(v);
        proof {
            assert(acc@ =~= old_acc + seq![acc@.last()]);
            match spec_buffer_view_items(items@.skip(i as int + 1)) {
                Some(rest) => {
                    assert(old_acc + (seq![acc@.last()] + rest) =~= acc@ + rest);
                },
                None => {},
            }
        }
        i = i + 1;
    }
    assert(items@.skip(n as int).len() == 0);
    assert(acc@ + Seq::<BufferView>::empty() =~= acc@);
    Some(acc)
}

/// What an array of image objects decodes to.
pub open spec fn spec_image_items(items: Seq<Json>) -> Option<Seq<Image>>
    decreases items.len(),
{
    if items.len() == 0 {
        Some(Seq::empty())
    } else {
        match (spec_image(items[0]), spec_image_items(items.drop_first())) {
            (Some(v), Some(rest)) => Some(seq![v] + rest),
            _ => None,
        }
    }
}

fn image_items(items: &Vec<Json>) -> (r: Option<Vec<Image>>)
    ensures
        r matches Some(v) ==> spec_image_items(items@) == Some(v@),
        r is None <==> spec_image_items(items@) is None,
{
    let n = items.len();
    let mut acc: Vec<Image> = Vec::new();
    let mut i: usize = 0;
    assert(items@.skip(0) =~= items@);
    while i < n
        invariant
            i <= n,
            n == items@.len(),
            match spec_image_items(items@.skip(i as int)) {
                Some(rest) => spec_image_items(items@) == Some(acc@ + rest),
                None => spec_image_items(items@) is None,
            },
            spec_image_items(items@) is None ==> spec_image_items(items@.skip(i as int)) is None,
        decreases n - i,
    {
        assert(items@.skip(i as int)[0] == items@[i as int]);
        assert(items@.skip(i as int).drop_first() =~= items@.skip(i as int + 1));
        let v = match Image::from_json_value(&items[i]) {
            Some(v) => v,
            None => {
                return None;
            },
        };
        let ghost old_acc = acc@;
        acc.push(v);
        proof {
            assert(acc@ =~= old_acc + seq![acc@.last()]);
            match spec_image_items(items@.skip(i as int + 1)) {
                Some(rest) => {
                    assert(old_acc + (seq![acc@.last()] + rest) =~= acc@ + rest);
                },
                None => {},
            }
        }
        i = i + 1;
    }
    assert(items@.skip(n as int).len() == 0);
    assert(acc@ + Seq::<Image>::empty() =~= acc@);
    Some(acc)
}

/// What an array of texture objects decodes to.
pub open spec fn spec_texture_items(items: Seq<Json>) -> Option<Seq<Texture>>
    decreases items.len(),
{
    if items.len() == 0 {
        Some(Seq::empty())
    } else {
        match (spec_texture(items[0]), spec_texture_items(items.drop_first())) {
            (Some(v), Some(rest)) => Some(seq![v] + rest),
            _ => None,
        }
    }
}

fn texture_items(items: &Vec<Json>) -> (r: Option<Vec<Texture>>)
    ensures
        r matches Some(v) ==> spec_texture_items(items@) == Some(v@),
        r is None <==> spec_texture_items(items@) is None,
{
    let n = items.len();
    let mut acc: Vec<Texture> = Vec::new();
    let mut i: usize = 0;
    assert(items@.skip(0) =~= items@);
    while i < n
        invariant
            i <= n,
            n == items@.len(),
            match spec_texture_items(items@.skip(i as int)) {
                Some(rest) => spec_texture_items(items@) == Some(acc@ + rest),
                None => spec_texture_items(items@) is None,
            },
            spec_texture_items(items@) is None ==> spec_texture_items(
                items@.skip(i as int),
            ) is None,
        decreases n - i,
    {
        assert(items@.skip(i as int)[0] == items@[i as int]);
        assert(items@.skip(i as int).drop_first() =~= items@.skip(i as int + 1));
        let v = match Texture::from_json_value(&items[i]) {
            Some(v) => v,
            None => {
                return None;
            },
        };
        let ghost old_acc = acc@;
        acc.push(v);
        proof {
            assert(acc@ =~= old_acc + seq![acc@.last()]);
            match spec_texture_items(items@.skip(i as int + 1)) {
                Some(rest) => {
                    assert(old_acc + (seq![acc@.last()] + rest) =~= acc@ + rest);
                },
                None => {},
            }
        }
        i = i + 1;
    }
    assert(items@.skip(n as int).len() == 0);
    assert(acc@ + Seq::<Texture>::empty() =~= acc@);
    Some(acc)
}

/// What an array of scene objects decodes to.
pub open spec fn spec_scene_items(items: Seq<Json>) -> Option<Seq<SceneView>>
    decreases items.len(),
{
    if items.len() == 0 {
        Some(Seq::empty())
    } else {
        match (spec_scene(items[0]), spec_scene_items(items.drop_first())) {
            (Some(v), Some(rest)) => Some(seq![v] + rest),
            _ => None,
        }
    }
}

fn scene_items(items: &Vec<Json>) -> (r: Option<Vec<Scene>>)
    ensures
        r matches Some(v) ==> spec_scene_items(items@) == Some(v.deep_view()),
        r is None <==> spec_scene_items(items@) is None,
{
    let n = items.len();
    let mut acc: Vec<Scene> = Vec::new();
    let mut i: usize = 0;
    assert(items@.skip(0) =~= items@);
    assert(acc.deep_view() =~= Seq::<SceneView>::empty());
    while i < n
        invariant
            i <= n,
            n == items@.len(),
            match spec_scene_items(items@.skip(i as int)) {
                Some(rest) => spec_scene_items(items@) == Some(acc.deep_view() + rest),
                None => spec_scene_items(items@) is None,
            },
            spec_scene_items(items@) is None ==> spec_scene_items(items@.skip(i as int)) is None,
        decreases n - i,
    {
        assert(items@.skip(i as int)[0] == items@[i as int]);
        assert(items@.skip(i as int).drop_first() =~= items@.skip(i as int + 1));
        let v = match Scene::from_json_value(&items[i]) {
            Some(v) => v,
            None => {
                return None;
            },
        };
        let ghost old_deep = acc.deep_view();
        let ghost vv = v@;
        acc.push(v);
        proof {
            assert(acc.deep_view() =~= old_deep + seq![vv]);
            match spec_scene_items(items@.skip(i as int + 1)) {
                Some(rest) => {
                    assert(old_deep + (seq![vv] + rest) =~= acc.deep_view() + rest);
                },
                None => {},
            }
        }
        i = i + 1;
    }
    assert(items@.skip(n as int).len() == 0);
    assert(acc.deep_view() + Seq::<SceneView>::empty() =~= acc.deep_view());
    Some(acc)
}

/// What an array of skin objects decodes to.
pub open spec fn spec_skin_items(items: Seq<Json>) -> Option<Seq<SkinView>>
    decreases items.len(),
{
    if items.len() == 0 {
        Some(Seq::empty())
    } else {
        match (spec_skin(items[0]), spec_skin_items(items.drop_first())) {
            (Some(v), Some(rest)) => Some(seq![v] + rest),
            _ => None,
        }
    }
}

fn skin_items(items: &Vec<Json>) -> (r: Option<Vec<Skin>>)
    ensures
        r matches Some(v) ==> spec_skin_items(items@) == Some(v.deep_view()),
        r is None <==> spec_skin_items(items@) is None,
{
    let n = items.len();
    let mut acc: Vec<Skin> = Vec::new();
    let mut i: usize = 0;
    assert(items@.skip(0) =~= items@);
    assert(acc.deep_view() =~= Seq::<SkinView>::empty());
    while i < n
        invariant
            i <= n,
            n == items@.len(),
            match spec_skin_items(items@.skip(i as int)) {
                Some(rest) => spec_skin_items(items@) == Some(acc.deep_view() + rest),
                None => spec_skin_items(items@) is None,
            },
            spec_skin_items(items@) is None ==> spec_skin_items(items@.skip(i as int)) is None,
        decreases n - i,
    {
        assert(items@.skip(i as int)[0] == items@[i as int]);
        assert(items@.skip(i as int).drop_first() =~= items@.skip(i as int + 1));
        let v = match Skin::from_json_value(&items[i]) {
            Some(v) => v,
            None => {
                return None;
            },
        };
        let ghost old_deep = acc.deep_view();
        let ghost vv = v@;
        acc.push(v);
        proof {
            assert(acc.deep_view() =~= old_deep + seq![vv]);
            match spec_skin_items(items@.skip(i as int + 1)) {
                Some(rest) => {
                    assert(old_deep + (seq![vv] + rest) =~= acc.deep_view() + rest);
                },
                None => {},
            }
        }
        i = i + 1;
    }
    assert(items@.skip(n as int).len() == 0);
    assert(acc.deep_view() + Seq::<SkinView>::empty() =~= acc.deep_view());
    Some(acc)
}

/// Magnification filter.
#[derive(Debug, Clone, Copy, PartialEq, Eq, Structural)]
pub enum SamplerMagFilter {
    Nearest,
    Linear,
}

/// What an optional magnification-filter field decodes to.
pub open spec fn spec_mag_filter(j: Json, key: Seq<char>) -> Option<SamplerMagFilter> {
    match spec_opt_int(j, key) {
        Ok(Some(n)) => if n == 9728 {
            Some(SamplerMagFilter::Nearest)
        } else if n == 9729 {
            Some(SamplerMagFilter::Linear)
        } else {
            None
        },
        _ => None,
    }
}

/// Minification filter.
#[derive(Debug, Clone, Copy, PartialEq, Eq, Structural)]
pub enum SamplerMinFilter {
    Nearest,
    Linear,
    NearestMipmapNearest,
    LinearMipmapNearest,
    NearestMipmapLinear,
    LinearMipmapLinear,
}

/// What an optional minification-filter field decodes to.
pub open spec fn spec_min_filter(j: Json, key: Seq<char>) -> Option<SamplerMinFilter> {
    match spec_opt_int(j, key) {
        Ok(Some(n)) => if n == 9728 {
            Some(SamplerMinFilter::Nearest)
        } else if n == 9729 {
            Some(SamplerMinFilter::Linear)
        } else if n == 9984 {
            Some(SamplerMinFilter::NearestMipmapNearest)
        } else if n == 9985 {
            Some(SamplerMinFilter::LinearMipmapNearest)
        } else if n == 9986 {
            Some(SamplerMinFilter::NearestMipmapLinear)
        } else if n == 9987 {
            Some(SamplerMinFilter::LinearMipmapLinear)
        } else {
            None
        },
        _ => None,
    }
}

/// s wrapping mode.
#[derive(Debug, Clone, Copy, PartialEq, Eq, Structural)]
pub enum SamplerWrapS {
    ClampToEdge,
    MirroredRepeat,
    Repeat,
}

/// t wrapping mode.
#[derive(Debug, Clone, Copy, PartialEq, Eq, Structural)]
pub enum SamplerWrapT {
    ClampToEdge,
    MirroredRepeat,
    Repeat,
}

/// What an optional s-wrapping-mode field decodes to.
pub open spec fn spec_wrap_s(j: Json, key: Seq<char>) -> Option<SamplerWrapS> {
    match spec_opt_int(j, key) {
        Ok(Some(n)) => if n == 33071 {
            Some(SamplerWrapS::ClampToEdge)
        } else if n == 33648 {
            Some(SamplerWrapS::MirroredRepeat)
        } else if n == 10497 {
            Some(SamplerWrapS::Repeat)
        } else {
            None
        },
        _ => None,
    }
}

/// What an optional t-wrapping-mode field decodes to.
pub open spec fn spec_wrap_t(j: Json, key: Seq<char>) -> Option<SamplerWrapT> {
    match spec_opt_int(j, key) {
        Ok(Some(n)) => if n == 33071 {
            Some(SamplerWrapT::ClampToEdge)
        } else if n == 33648 {
            Some(SamplerWrapT::MirroredRepeat)
        } else if n == 10497 {
            Some(SamplerWrapT::Repeat)
        } else {
            None
        },
        _ => None,
    }
}

fn opt_i64(j: &Json, key: &str) -> (r: Option<i64>)
    ensures
        (match spec_opt_int(*j, key@) {
            Ok(v) => r == v,
            Err(_) => r is None,
        }),
{
    match j.get(key) {
        Some(v) => match v {
            Json::Num(t) => crate::text::parse_i64(t.as_str()),
            _ => None,
        },
        None => None,
    }
}

/// Texture sampler properties for filtering and wrapping modes; all
/// fields are optional and an unrecognized code reads as absent.
#[derive(Debug, Clone, PartialEq, Eq)]
pub struct Sampler {
    /// Magnification filter.
    pub mag_filter: Option<SamplerMagFilter>,
    /// Minification filter.
    pub min_filter: Option<SamplerMinFilter>,
    /// s wrapping mode.
    pub wrap_s: Option<SamplerWrapS>,
    /// t wrapping mode.
    pub wrap_t: Option<SamplerWrapT>,
    /// The user-defined name of this object.
    pub name: Option<String>,
    /// Dictionary object with extension-specific objects.
    pub extensions: Option<Extension>,
}

/// What decoding a sampler object yields.
pub open spec fn spec_sampler(j: Json) -> Option<Sampler> {
    if !(j is Obj) {
        None
    } else {
        Some(
            Sampler {
                mag_filter: spec_mag_filter(j, "magFilter"@),
                min_filter: spec_min_filter(j, "minFilter"@),
                wrap_s: spec_wrap_s(j, "wrapS"@),
                wrap_t: spec_wrap_t(j, "wrapT"@),
                name: json_get_str(j, "name"@),
                extensions: spec_ext_field(j, "extensions"@),
            },
        )
    }
}

impl Sampler {
    /// Decodes a sampler object.
    pub fn from_json_value(j: &Json) -> (r: Option<Sampler>)
        ensures
            r == spec_sampler(*j),
    {
        match j {
            Json::Obj(_) => {},
            _ => {
                return None;
            },
        }
        let mag_filter = match opt_i64(j, "magFilter") {
            Some(n) => {
                if n == 9728 {
                    Some(SamplerMagFilter::Nearest)
                } else if n == 9729 {
                    Some(SamplerMagFilter::Linear)
                } else {
                    None
                }
            },
            None => None,
        };
        let min_filter = match opt_i64(j, "minFilter") {
            Some(n) => {
                if n == 9728 {
                    Some(SamplerMinFilter::Nearest)
                } else if n == 9729 {
                    Some(SamplerMinFilter::Linear)
                } else if n == 9984 {
                    Some(SamplerMinFilter::NearestMipmapNearest)
                } else if n == 9985 {
                    Some(SamplerMinFilter::LinearMipmapNearest)
                } else if n == 9986 {
                    Some(SamplerMinFilter::NearestMipmapLinear)
                } else if n == 9987 {
                    Some(SamplerMinFilter::LinearMipmapLinear)
                } else {
                    None
                }
            },
            None => None,
        };
        let wrap_s = match opt_i64(j, "wrapS") {
            Some(n) => {
                if n == 33071 {
                    Some(SamplerWrapS::ClampToEdge)
                } else if n == 33648 {
                    Some(SamplerWrapS::MirroredRepeat)
                } else if n == 10497 {
                    Some(SamplerWrapS::Repeat)
                } else {
                    None
                }
            },
            None => None,
        };
        let wrap_t = match opt_i64(j, "wrapT") {
            Some(n) => {
                if n == 33071 {
                    Some(SamplerWrapT::ClampToEdge)
                } else if n == 33648 {
                    Some(SamplerWrapT::MirroredRepeat)
                } else if n == 10497 {
                    Some(SamplerWrapT::Repeat)
                } else {
                    None
                }
            },
            None => None,
        };
        Some(
            Sampler {
                mag_filter,
                min_filter,
                wrap_s,
                wrap_t,
                name: opt_string(j, "name"),
                extensions: ext_field(j, "extensions"),
            },
        )
    }
}

/// Reference to a texture; `index` is required.
#[derive(Debug, Clone, PartialEq, Eq)]
pub struct TextureInfo {
    /// The index of the texture.
    pub index: usize,
    /// The set index of the texture's TEXCOORD attribute.
    pub tex_coord: Option<usize>,
    /// Dictionary object with extension-specific objects.
    pub extensions: Option<Extension>,
}

/// What decoding a texture reference yields.
pub open spec fn spec_texture_info(j: Json) -> Option<TextureInfo> {
    if !(j is Obj) {
        None
    } else {
        match spec_opt_usize(j, "index"@) {
            None => None,
            Some(index) => Some(
                TextureInfo {
                    index: index,
                    tex_coord: spec_opt_usize(j, "texCoord"@),
                    extensions: spec_ext_field(j, "extensions"@),
                },
            ),
        }
    }
}

impl TextureInfo {
    /// Decodes a texture reference.
    pub fn from_json_value(j: &Json) -> (r: Option<TextureInfo>)
        ensures
            r == spec_texture_info(*j),
    {
        match j {
            Json::Obj(_) => {},
            _ => {
                return None;
            },
        }
        let index = match opt_usize(j, "index") {
            Some(v) => v,
            None => {
                return None;
            },
        };
        Some(
            TextureInfo {
                index,
                tex_coord: opt_usize(j, "texCoord"),
                extensions: ext_field(j, "extensions"),
            },
        )
    }
}

/// Interpolation algorithm.
#[derive(Debug, Clone, Copy, PartialEq, Eq, Structural)]
pub enum AnimationSamplerInterpolation {
    Linear,
    Step,
    Cubicspline,
}

/// What an optional interpolation field decodes to: one of the three
/// recognized algorithm names.
pub open spec fn spec_interpolation(j: Json, key: Seq<char>) -> Option<
    AnimationSamplerInterpolation,
> {
    match json_get_str(j, key) {
        Some(s) => if s@ == "LINEAR"@ {
            Some(AnimationSamplerInterpolation::Linear)
        } else if s@ == "STEP"@ {
            Some(AnimationSamplerInterpolation::Step)
        } else if s@ == "CUBICSPLINE"@ {
            Some(AnimationSamplerInterpolation::Cubicspline)
        } else {
            None
        },
        None => None,
    }
}

/// The name of the node's TRS property an animation modifies.
#[derive(Debug, Clone, Copy, PartialEq, Eq, Structural)]
pub enum AnimationChannelTargetPath {
    Translation,
    Rotation,
    Scale,
    Weights,
}

/// What a target-path field decodes to: one of the four recognized
/// property names.
pub open spec fn spec_target_path(j: Json, key: Seq<char>) -> Option<AnimationChannelTargetPath> {
    match json_get_str(j, key) {
        Some(s) => if s@ == "translation"@ {
            Some(AnimationChannelTargetPath::Translation)
        } else if s@ == "rotation"@ {
            Some(AnimationChannelTargetPath::Rotation)
        } else if s@ == "scale"@ {
            Some(AnimationChannelTargetPath::Scale)
        } else if s@ == "weights"@ {
            Some(AnimationChannelTargetPath::Weights)
        } else {
            None
        },
        None => None,
    }
}

/// The index of the node and TRS property to target; `path` is required.
#[derive(Debug, Clone, PartialEq, Eq)]
pub struct AnimationChannelTarget {
    /// The index of the node to target.
    pub node: Option<usize>,
    /// The name of the node's TRS property to modify.
    pub path: AnimationChannelTargetPath,
    /// Dictionary object with extension-specific objects.
    pub extensions: Option<Extension>,
}

/// What decoding a channel target yields.
pub open spec fn spec_channel_target(j: Json) -> Option<AnimationChannelTarget> {
    if !(j is Obj) {
        None
    } else {
        match spec_target_path(j, "path"@) {
            None => None,
            Some(path) => Some(
                AnimationChannelTarget {
                    node: spec_opt_usize(j, "node"@),
                    path: path,
                    extensions: spec_ext_field(j, "extensions"@),
                },
            ),
        }
    }
}

impl AnimationChannelTarget {
    /// Decodes a channel target.
    pub fn from_json_value(j: &Json) -> (r: Option<AnimationChannelTarget>)
        ensures
            r == spec_channel_target(*j),
    {
        match j {
            Json::Obj(_) => {},
            _ => {
                return None;
            },
        }
        let path = match j.get("path") {
            Some(v) => match v {
                Json::Str(s) => {
                    if crate::text::str_eq(s.as_str(), "translation") {
                        AnimationChannelTargetPath::Translation
                    } else if crate::text::str_eq(s.as_str(), "rotation") {
                        AnimationChannelTargetPath::Rotation
                    } else if crate::text::str_eq(s.as_str(), "scale") {
                        AnimationChannelTargetPath::Scale
                    } else if crate::text::str_eq(s.as_str(), "weights") {
                        AnimationChannelTargetPath::Weights
                    } else {
                        return None;
                    }
                },
                _ => {
                    return None;
                },
            },
            None => {
                return None;
            },
        };
        Some(
            AnimationChannelTarget {
                node: opt_usize(j, "node"),
                path,
                extensions: ext_field(j, "extensions"),
            },
        )
    }
}

/// Targets an animation's sampler at a node's property; `sampler` and
/// `target` are required.
#[derive(Debug, Clone, PartialEq, Eq)]
pub struct AnimationChannel {
    /// The index of a sampler in this animation.
    pub sampler: usize,
    /// The index of the node and TRS property to target.
    pub target: AnimationChannelTarget,
    /// Dictionary object with extension-specific objects.
    pub extensions: Option<Extension>,
}

/// What decoding an animation channel yields.
pub open spec fn spec_channel(j: Json) -> Option<AnimationChannel> {
    if !(j is Obj) {
        None
    } else {
        match (spec_opt_usize(j, "sampler"@), json_get(j, "target"@)) {
            (Some(sampler), Some(tj)) => match spec_channel_target(tj) {
                None => None,
                Some(target) => Some(
                    AnimationChannel {
                        sampler: sampler,
                        target: target,
                        extensions: spec_ext_field(j, "extensions"@),
                    },
                ),
            },
            _ => None,
        }
    }
}

impl AnimationChannel {
    /// Decodes an animation channel.
    pub fn from_json_value(j: &Json) -> (r: Option<AnimationChannel>)
        ensures
            r == spec_channel(*j),
    {
        match j {
            Json::Obj(_) => {},
            _ => {
                return None;
            },
        }
        let sampler = match opt_usize(j, "sampler") {
            Some(v) => v,
            None => {
                return None;
            },
        };
        let target = match j.get("target") {
            Some(tj) => match AnimationChannelTarget::from_json_value(tj) {
                Some(t) => t,
                None => {
                    return None;
                },
            },
            None => {
                return None;
            },
        };
        Some(AnimationChannel { sampler, target, extensions: ext_field(j, "extensions") })
    }
}

/// Combines input and output accessors with an interpolation algorithm;
/// `input` and `output` are required.
#[derive(Debug, Clone, PartialEq, Eq)]
pub struct AnimationSampler {
    /// The index of an accessor containing keyframe input values.
    pub input: usize,
    /// Interpolation algorithm.
    pub interpolation: Option<AnimationSamplerInterpolation>,
    /// The index of an accessor containing keyframe output values.
    pub output: usize,
    /// Dictionary object with extension-specific objects.
    pub extensions: Option<Extension>,
}

/// What decoding an animation sampler yields.
pub open spec fn spec_anim_sampler(j: Json) -> Option<AnimationSampler> {
    if !(j is Obj) {
        None
    } else {
        match (spec_opt_usize(j, "input"@), spec_opt_usize(j, "output"@)) {
            (Some(input), Some(output)) => Some(
                AnimationSampler {
                    input: input,
                    interpolation: spec_interpolation(j, "interpolation"@),
                    output: output,
                    extensions: spec_ext_field(j, "extensions"@),
                },
            ),
            _ => None,
        }
    }
}

impl AnimationSampler {
    /// Decodes an animation sampler.
    pub fn from_json_value(j: &Json) -> (r: Option<AnimationSampler>)
        ensures
            r == spec_anim_sampler(*j),
    {
        match j {
            Json::Obj(_) => {},
            _ => {
                return None;
            },
        }
        let input = match opt_usize(j, "input") {
            Some(v) => v,
            None => {
                return None;
            },
        };
        let output = match opt_usize(j, "output") {
            Some(v) => v,
            None => {
                return None;
            },
        };
        let interpolation = match j.get("interpolation") {
            Some(v) => match v {
                Json::Str(s) => {
                    if crate::text::str_eq(s.as_str(), "LINEAR") {
                        Some(AnimationSamplerInterpolation::Linear)
                    } else if crate::text::str_eq(s.as_str(), "STEP") {
                        Some(AnimationSamplerInterpolation::Step)
                    } else if crate::text::str_eq(s.as_str(), "CUBICSPLINE") {
                        Some(AnimationSamplerInterpolation::Cubicspline)
                    } else {
                        None
                    }
                },
                _ => None,
            },
            None => None,
        };
        Some(AnimationSampler { input, interpolation, output, extensions: ext_field(j, "extensions") })
    }
}

/// The indices data type of sparse accessor storage.
#[derive(Debug, Clone, Copy, PartialEq, Eq, Structural)]
pub enum AccessorSparseIndicesComponentType {
    UnsignedByte,
    UnsignedShort,
    UnsignedInt,
}

/// What a sparse-indices component-type value decodes to: one of the
/// three recognized unsigned codes.
pub open spec fn spec_sparse_indices_component_type(j: Json) -> Option<
    AccessorSparseIndicesComponentType,
> {
    match j {
        Json::Num(t) => match int_of_num_text(t@) {
            Some(n) => if n == 5121 {
                Some(AccessorSparseIndicesComponentType::UnsignedByte)
            } else if n == 5123 {
                Some(AccessorSparseIndicesComponentType::UnsignedShort)
            } else if n == 5125 {
                Some(AccessorSparseIndicesComponentType::UnsignedInt)
            } else {
                None
            },
            None => None,
        },
        _ => None,
    }
}

impl AccessorSparseIndicesComponentType {
    /// Decodes a sparse-indices component-type value.
    pub fn from_json_value(j: &Json) -> (r: Option<AccessorSparseIndicesComponentType>)
        ensures
            r == spec_sparse_indices_component_type(*j),
    {
        match j {
            Json::Num(t) => match crate::text::parse_i64(t.as_str()) {
                Some(n) => {
                    if n == 5121 {
                        Some(AccessorSparseIndicesComponentType::UnsignedByte)
                    } else if n == 5123 {
                        Some(AccessorSparseIndicesComponentType::UnsignedShort)
                    } else if n == 5125 {
                        Some(AccessorSparseIndicesComponentType::UnsignedInt)
                    } else {
                        None
                    }
                },
                None => None,
            },
            _ => None,
        }
    }
}

/// Whether an accessor's attribute is a scalar, vector, or matrix.
#[derive(Debug, Clone, Copy, PartialEq, Eq, Structural)]
pub enum AccessorType {
    Scalar,
    Vec2,
    Vec3,
    Vec4,
    Mat2,
    Mat3,
    Mat4,
}

/// What an accessor-type value decodes to: one of the seven recognized
/// shape names.
pub open spec fn spec_accessor_type(j: Json) -> Option<AccessorType> {
    match j {
        Json::Str(s) => if s@ == "SCALAR"@ {
            Some(AccessorType::Scalar)
        } else if s@ == "VEC2"@ {
            Some(AccessorType::Vec2)
        } else if s@ == "VEC3"@ {
            Some(AccessorType::Vec3)
        } else if s@ == "VEC4"@ {
            Some(AccessorType::Vec4)
        } else if s@ == "MAT2"@ {
            Some(AccessorType::Mat2)
        } else if s@ == "MAT3"@ {
            Some(AccessorType::Mat3)
        } else if s@ == "MAT4"@ {
            Some(AccessorType::Mat4)
        } else {
            None
        },
        _ => None,
    }
}

impl AccessorType {
    /// Decodes an accessor-type value.
    pub fn from_json_value(j: &Json) -> (r: Option<AccessorType>)
        ensures
            r == spec_accessor_type(*j),
    {
        match j {
            Json::Str(s) => {
                if crate::text::str_eq(s.as_str(), "SCALAR") {
                    Some(AccessorType::Scalar)
                } else if crate::text::str_eq(s.as_str(), "VEC2") {
                    Some(AccessorType::Vec2)
                } else if crate::text::str_eq(s.as_str(), "VEC3") {
                    Some(AccessorType::Vec3)
                } else if crate::text::str_eq(s.as_str(), "VEC4") {
                    Some(AccessorType::Vec4)
                } else if crate::text::str_eq(s.as_str(), "MAT2") {
                    Some(AccessorType::Mat2)
                } else if crate::text::str_eq(s.as_str(), "MAT3") {
                    Some(AccessorType::Mat3)
                } else if crate::text::str_eq(s.as_str(), "MAT4") {
                    Some(AccessorType::Mat4)
                } else {
                    None
                }
            },
            _ => None,
        }
    }
}

/// The datatype of components in an accessor's attribute.
#[derive(Debug, Clone, Copy, PartialEq, Eq, Structural)]
pub enum AccessorComponentType {
    Byte,
    UnsignedByte,
    Short,
    UnsignedShort,
    UnsignedInt,
    Float,
}

/// What a component-type value decodes to: one of the six recognized
/// datatype codes.
pub open spec fn spec_accessor_component_type(j: Json) -> Option<AccessorComponentType> {
    match j {
        Json::Num(t) => match int_of_num_text(t@) {
            Some(n) => if n == 5120 {
                Some(AccessorComponentType::Byte)
            } else if n == 5121 {
                Some(AccessorComponentType::UnsignedByte)
            } else if n == 5122 {
                Some(AccessorComponentType::Short)
            } else if n == 5123 {
                Some(AccessorComponentType::UnsignedShort)
            } else if n == 5125 {
                Some(AccessorComponentType::UnsignedInt)
            } else if n == 5126 {
                Some(AccessorComponentType::Float)
            } else {
                None
            },
            None => None,
        },
        _ => None,
    }
}

impl AccessorComponentType {
    /// Decodes a component-type value.
    pub fn from_json_value(j: &Json) -> (r: Option<AccessorComponentType>)
        ensures
            r == spec_accessor_component_type(*j),
    {
        match j {
            Json::Num(t) => match crate::text::parse_i64(t.as_str()) {
                Some(n) => {
                    if n == 5120 {
                        Some(AccessorComponentType::Byte)
                    } else if n == 5121 {
                        Some(AccessorComponentType::UnsignedByte)
                    } else if n == 5122 {
                        Some(AccessorComponentType::Short)
                    } else if n == 5123 {
                        Some(AccessorComponentType::UnsignedShort)
                    } else if n == 5125 {
                        Some(AccessorComponentType::UnsignedInt)
                    } else if n == 5126 {
                        Some(AccessorComponentType::Float)
                    } else {
                        None
                    }
                },
                None => None,
            },
            _ => None,
        }
    }
}

/// The index array of sparse accessor storage; `bufferView` and
/// `componentType` are required.
#[derive(Debug, Clone, PartialEq, Eq)]
pub struct AccessorSparseIndices {
    /// The index of the bufferView with sparse indices.
    pub buffer_view: usize,
    /// The offset relative to the start of the bufferView in bytes.
    pub byte_offset: Option<usize>,
    /// The indices data type.
    pub component_type: AccessorSparseIndicesComponentType,
    /// Dictionary object with extension-specific objects.
    pub extensions: Option<Extension>,
}

/// What decoding a sparse-indices object yields.
pub open spec fn spec_sparse_indices(j: Json) -> Option<AccessorSparseIndices> {
    if !(j is Obj) {
        None
    } else {
        match (spec_opt_usize(j, "bufferView"@), json_get(j, "componentType"@)) {
            (Some(buffer_view), Some(cj)) => match spec_sparse_indices_component_type(cj) {
                None => None,
                Some(component_type) => Some(
                    AccessorSparseIndices {
                        buffer_view: buffer_view,
                        byte_offset: spec_opt_usize(j, "byteOffset"@),
                        component_type: component_type,
                        extensions: spec_ext_field(j, "extensions"@),
                    },
                ),
            },
            _ => None,
        }
    }
}

impl AccessorSparseIndices {
    /// Decodes a sparse-indices object.
    pub fn from_json_value(j: &Json) -> (r: Option<AccessorSparseIndices>)
        ensures
            r == spec_sparse_indices(*j),
    {
        match j {
            Json::Obj(_) => {},
            _ => {
                return None;
            },
        }
        let buffer_view = match opt_usize(j, "bufferView") {
            Some(v) => v,
            None => {
                return None;
            },
        };
        let component_type = match j.get("componentType") {
            Some(cj) => match AccessorSparseIndicesComponentType::from_json_value(cj) {
                Some(c) => c,
                None => {
                    return None;
                },
            },
            None => {
                return None;
            },
        };
        Some(
            AccessorSparseIndices {
                buffer_view,
                byte_offset: opt_usize(j, "byteOffset"),
                component_type,
                extensions: ext_field(j, "extensions"),
            },
        )
    }
}

/// The value array of sparse accessor storage; `bufferView` is required.
#[derive(Debug, Clone, PartialEq, Eq)]
pub struct AccessorSparseValues {
    /// The index of the bufferView with sparse values.
    pub buffer_view: usize,
    /// The offset relative to the start of the bufferView in bytes.
    pub byte_offset: Option<usize>,
    /// Dictionary object with extension-specific objects.
    pub extensions: Option<Extension>,
}

/// What decoding a sparse-values object yields.
pub open spec fn spec_sparse_values(j: Json) -> Option<AccessorSparseValues> {
    if !(j is Obj) {
        None
    } else {
        match spec_opt_usize(j, "bufferView"@) {
            None => None,
            Some(buffer_view) => Some(
                AccessorSparseValues {
                    buffer_view: buffer_view,
                    byte_offset: spec_opt_usize(j, "byteOffset"@),
                    extensions: spec_ext_field(j, "extensions"@),
                },
            ),
        }
    }
}

impl AccessorSparseValues {
    /// Decodes a sparse-values object.
    pub fn from_json_value(j: &Json) -> (r: Option<AccessorSparseValues>)
        ensures
            r == spec_sparse_values(*j),
    {
        match j {
            Json::Obj(_) => {},
            _ => {
                return None;
            },
        }
        let buffer_view = match opt_usize(j, "bufferView") {
            Some(v) => v,
            None => {
                return None;
            },
        };
        Some(
            AccessorSparseValues {
                buffer_view,
                byte_offset: opt_usize(j, "byteOffset"),
                extensions: ext_field(j, "extensions"),
            },
        )
    }
}

/// Sparse storage of attributes that deviate from their initialization
/// value; `count`, `indices` and `values` are required.
#[derive(Debug, Clone, PartialEq, Eq)]
pub struct AccessorSparse {
    /// Number of entries stored in the sparse array.
    pub count: usize,
    /// The index array pointing at the deviating attributes.
    pub indices: AccessorSparseIndices,
    /// The displaced attribute values.
    pub values: AccessorSparseValues,
    /// Dictionary object with extension-specific objects.
    pub extensions: Option<Extension>,
}

/// What decoding a sparse-storage object yields.
pub open spec fn spec_sparse(j: Json) -> Option<AccessorSparse> {
    if !(j is Obj) {
        None
    } else {
        match (spec_opt_usize(j, "count"@), json_get(j, "indices"@), json_get(j, "values"@)) {
            (Some(count), Some(ij), Some(vj)) => match (spec_sparse_indices(ij), spec_sparse_values(
                vj,
            )) {
                (Some(indices), Some(values)) => Some(
                    AccessorSparse {
                        count: count,
                        indices: indices,
                        values: values,
                        extensions: spec_ext_field(j, "extensions"@),
                    },
                ),
                _ => None,
            },
            _ => None,
        }
    }
}

impl AccessorSparse {
    /// Decodes a sparse-storage object.
    pub fn from_json_value(j: &Json) -> (r: Option<AccessorSparse>)
        ensures
            r == spec_sparse(*j),
    {
        match j {
            Json::Obj(_) => {},
            _ => {
                return None;
            },
        }
        let count = match opt_usize(j, "count") {
            Some(v) => v,
            None => {
                return None;
            },
        };
        let indices = match j.get("indices") {
            Some(ij) => match AccessorSparseIndices::from_json_value(ij) {
                Some(v) => v,
                None => {
                    return None;
                },
            },
            None => {
                return None;
            },
        };
        let values = match j.get("values") {
            Some(vj) => match AccessorSparseValues::from_json_value(vj) {
                Some(v) => v,
                None => {
                    return None;
                },
            },
            None => {
                return None;
            },
        };
        Some(AccessorSparse { count, indices, values, extensions: ext_field(j, "extensions") })
    }
}

/// Whether a camera uses a perspective or orthographic projection.
#[derive(Debug, Clone, Copy, PartialEq, Eq, Structural)]
pub enum CameraType {
    Perspective,
    Orthographic,
}

/// What a camera-type value decodes to: one of the two recognized
/// projection names.
pub open spec fn spec_camera_type(j: Json) -> Option<CameraType> {
    match j {
        Json::Str(s) => if s@ == "perspective"@ {
            Some(CameraType::Perspective)
        } else if s@ == "orthographic"@ {
            Some(CameraType::Orthographic)
        } else {
            None
        },
        _ => None,
    }
}

impl CameraType {
    /// Decodes a camera-type value.
    pub fn from_json_value(j: &Json) -> (r: Option<CameraType>)
        ensures
            r == spec_camera_type(*j),
    {
        match j {
            Json::Str(s) => {
                if crate::text::str_eq(s.as_str(), "perspective") {
                    Some(CameraType::Perspective)
                } else if crate::text::str_eq(s.as_str(), "orthographic") {
                    Some(CameraType::Orthographic)
                } else {
                    None
                }
            },
            _ => None,
        }
    }
}

/// The alpha rendering mode of a material.
#[derive(Debug, Clone, Copy, PartialEq, Eq, Structural)]
pub enum MaterialAlphaMode {
    /// The alpha value is ignored and the rendered output is fully opaque.
    Opaque,
    /// The rendered output is either fully opaque or fully transparent
    /// depending on the alpha value and the specified alpha cutoff value.
    Mask,
    /// The alpha value is used to composite the source and destination
    /// areas.
    Blend,
}

/// What an alpha-mode value decodes to: one of the three recognized mode
/// names.
pub open spec fn spec_alpha_mode(j: Json) -> Option<MaterialAlphaMode> {
    match j {
        Json::Str(s) => if s@ == "OPAQUE"@ {
            Some(MaterialAlphaMode::Opaque)
        } else if s@ == "MASK"@ {
            Some(MaterialAlphaMode::Mask)
        } else if s@ == "BLEND"@ {
            Some(MaterialAlphaMode::Blend)
        } else {
            None
        },
        _ => None,
    }
}

impl MaterialAlphaMode {
    /// Decodes an alpha-mode value.
    pub fn from_json_value(j: &Json) -> (r: Option<MaterialAlphaMode>)
        ensures
            r == spec_alpha_mode(*j),
    {
        match j {
            Json::Str(s) => {
                if crate::text::str_eq(s.as_str(), "OPAQUE") {
                    Some(MaterialAlphaMode::Opaque)
                } else if crate::text::str_eq(s.as_str(), "MASK") {
                    Some(MaterialAlphaMode::Mask)
                } else if crate::text::str_eq(s.as_str(), "BLEND") {
                    Some(MaterialAlphaMode::Blend)
                } else {
                    None
                }
            },
            _ => None,
        }
    }
}

/// The type of primitives to render.
#[derive(Debug, Clone, Copy, PartialEq, Eq, Structural)]
pub enum MeshPrimitiveMode {
    Points,
    Lines,
    LineLoop,
    LineStrip,
    Triangles,
    TriangleStrip,
    TriangleFan,
}

/// What a primitive-mode value decodes to: one of the seven recognized
/// mode codes.
pub open spec fn spec_primitive_mode(j: Json) -> Option<MeshPrimitiveMode> {
    match j {
        Json::Num(t) => match int_of_num_text(t@) {
            Some(n) => if n == 0 {
                Some(MeshPrimitiveMode::Points)
            } else if n == 1 {
                Some(MeshPrimitiveMode::Lines)
            } else if n == 2 {
                Some(MeshPrimitiveMode::LineLoop)
            } else if n == 3 {
                Some(MeshPrimitiveMode::LineStrip)
            } else if n == 4 {
                Some(MeshPrimitiveMode::Triangles)
            } else if n == 5 {
                Some(MeshPrimitiveMode::TriangleStrip)
            } else if n == 6 {
                Some(MeshPrimitiveMode::TriangleFan)
            } else {
                None
            },
            None => None,
        },
        _ => None,
    }
}

impl MeshPrimitiveMode {
    /// Decodes a primitive-mode value.
    pub fn from_json_value(j: &Json) -> (r: Option<MeshPrimitiveMode>)
        ensures
            r == spec_primitive_mode(*j),
    {
        match j {
            Json::Num(t) => match crate::text::parse_i64(t.as_str()) {
                Some(n) => {
                    if n == 0 {
                        Some(MeshPrimitiveMode::Points)
                    } else if n == 1 {
                        Some(MeshPrimitiveMode::Lines)
                    } else if n == 2 {
                        Some(MeshPrimitiveMode::LineLoop)
                    } else if n == 3 {
                        Some(MeshPrimitiveMode::LineStrip)
                    } else if n == 4 {
                        Some(MeshPrimitiveMode::Triangles)
                    } else if n == 5 {
                        Some(MeshPrimitiveMode::TriangleStrip)
                    } else if n == 6 {
                        Some(MeshPrimitiveMode::TriangleFan)
                    } else {
                        None
                    }
                },
                None => None,
            },
            _ => None,
        }
    }
}

/// What an attribute dictionary decodes to: each entry's value must be a
/// non-negative index; entries keep their order as pairs.
pub open spec fn spec_attr_pairs(entries: Seq<(String, Json)>) -> Option<Seq<(String, usize)>>
    decreases entries.len(),
{
    if entries.len() == 0 {
        Some(Seq::empty())
    } else {
        match (spec_usize_item(entries[0].1), spec_attr_pairs(entries.drop_first())) {
            (Some(n), Some(rest)) => Some(seq![(entries[0].0, n)] + rest),
            _ => None,
        }
    }
}

fn attr_pairs(entries: &Vec<(String, Json)>) -> (r: Option<Vec<(String, usize)>>)
    ensures
        r matches Some(v) ==> spec_attr_pairs(entries@) == Some(v@),
        r is None <==> spec_attr_pairs(entries@) is None,
{
    let n = entries.len();
    let mut acc: Vec<(String, usize)> = Vec::new();
    let mut i: usize = 0;
    assert(entries@.skip(0) =~= entries@);
    while i < n
        invariant
            i <= n,
            n == entries@.len(),
            match spec_attr_pairs(entries@.skip(i as int)) {
                Some(rest) => spec_attr_pairs(entries@) == Some(acc@ + rest),
                None => spec_attr_pairs(entries@) is None,
            },
            spec_attr_pairs(entries@) is None ==> spec_attr_pairs(entries@.skip(i as int)) is None,
        decreases n - i,
    {
        assert(entries@.skip(i as int)[0] == entries@[i as int]);
        assert(entries@.skip(i as int).drop_first() =~= entries@.skip(i as int + 1));
        let v: usize = match &entries[i].1 {
            Json::Num(t) => match crate::text::parse_i64(t.as_str()) {
                Some(n0) => {
                    if n0 >= 0 && (n0 as u64) <= (usize::MAX as u64) {
                        n0 as usize
                    } else {
                        return None;
                    }
                },
                None => {
                    return None;
                },
            },
            _ => {
                return None;
            },
        };
        let ghost old_acc = acc@;
        acc.push((entries[i].0.clone(), v));
        proof {
            assert(acc@ =~= old_acc + seq![(entries@[i as int].0, v)]);
            match spec_attr_pairs(entries@.skip(i as int + 1)) {
                Some(rest) => {
                    assert(old_acc + (seq![(entries@[i as int].0, v)] + rest) =~= acc@ + rest);
                },
                None => {},
            }
        }
        i = i + 1;
    }
    assert(entries@.skip(n as int).len() == 0);
    assert(acc@ + Seq::<(String, usize)>::empty() =~= acc@);
    Some(acc)
}

/// What an array of morph-target dictionaries decodes to.
pub open spec fn spec_target_items(items: Seq<Json>) -> Option<Seq<Seq<(String, usize)>>>
    decreases items.len(),
{
    if items.len() == 0 {
        Some(Seq::empty())
    } else {
        match items[0] {
            Json::Obj(entries) => match (spec_attr_pairs(entries@), spec_target_items(
                items.drop_first(),
            )) {
                (Some(t), Some(rest)) => Some(seq![t] + rest),
                _ => None,
            },
            _ => None,
        }
    }
}

/// The targets of a list of morph-target dictionaries, as the model sees
/// them.
pub open spec fn targets_view(targets: Seq<Vec<(String, usize)>>) -> Seq<Seq<(String, usize)>> {
    targets.map_values(|t: Vec<(String, usize)>| t@)
}

fn target_items(items: &Vec<Json>) -> (r: Option<Vec<Vec<(String, usize)>>>)
    ensures
        r matches Some(v) ==> spec_target_items(items@) == Some(targets_view(v@)),
        r is None <==> spec_target_items(items@) is None,
{
    let n = items.len();
    let mut acc: Vec<Vec<(String, usize)>> = Vec::new();
    let mut i: usize = 0;
    assert(items@.skip(0) =~= items@);
    assert(targets_view(acc@) =~= Seq::<Seq<(String, usize)>>::empty());
    while i < n
        invariant
            i <= n,
            n == items@.len(),
            match spec_target_items(items@.skip(i as int)) {
                Some(rest) => spec_target_items(items@) == Some(targets_view(acc@) + rest),
                None => spec_target_items(items@) is None,
            },
            spec_target_items(items@) is None ==> spec_target_items(
                items@.skip(i as int),
            ) is None,
        decreases n - i,
    {
        assert(items@.skip(i as int)[0] == items@[i as int]);
        assert(items@.skip(i as int).drop_first() =~= items@.skip(i as int + 1));
        let t: Vec<(String, usize)> = match &items[i] {
            Json::Obj(entries) => match attr_pairs(entries) {
                Some(t) => t,
                None => {
                    return None;
                },
            },
            _ => {
                return None;
            },
        };
        let ghost old_view = targets_view(acc@);
        let ghost tv = t@;
        acc.push(t);
        proof {
            assert(targets_view(acc@) =~= old_view + seq![tv]);
            match spec_target_items(items@.skip(i as int + 1)) {
                Some(rest) => {
                    assert(old_view + (seq![tv] + rest) =~= targets_view(acc@) + rest);
                },
                None => {},
            }
        }
        i = i + 1;
    }
    assert(items@.skip(n as int).len() == 0);
    assert(targets_view(acc@) + Seq::<Seq<(String, usize)>>::empty() =~= targets_view(acc@));
    Some(acc)
}

/// Geometry to be rendered with the given material; `attributes` is
/// required. Attribute dictionaries are kept as name-index pairs in
/// entry order.
#[derive(Debug, Clone, PartialEq, Eq)]
pub struct MeshPrimitive {
    /// Each attribute semantic, with the index of the accessor holding
    /// its data.
    pub attributes: Vec<(String, usize)>,
    /// The index of the accessor that contains the indices.
    pub indices: Option<usize>,
    /// The index of the material to apply to this primitive.
    pub material: Option<usize>,
    /// The type of primitives to render.
    pub mode: Option<MeshPrimitiveMode>,
    /// An array of morph-target dictionaries.
    pub targets: Vec<Vec<(String, usize)>>,
    /// Dictionary object with extension-specific objects.
    pub extensions: Option<Extension>,
}

/// A mesh primitive as the model sees it.
pub ghost struct MeshPrimitiveView {
    pub attributes: Seq<(String, usize)>,
    pub indices: Option<usize>,
    pub material: Option<usize>,
    pub mode: Option<MeshPrimitiveMode>,
    pub targets: Seq<Seq<(String, usize)>>,
    pub extensions: Option<Extension>,
}

impl View for MeshPrimitive {
    type V = MeshPrimitiveView;

    open spec fn view(&self) -> MeshPrimitiveView {
        MeshPrimitiveView {
            attributes: self.attributes@,
            indices: self.indices,
            material: self.material,
            mode: self.mode,
            targets: targets_view(self.targets@),
            extensions: self.extensions,
        }
    }
}

impl DeepView for MeshPrimitive {
    type V = MeshPrimitiveView;

    open spec fn deep_view(&self) -> MeshPrimitiveView {
        self@
    }
}

/// What decoding a mesh primitive yields: nothing unless the required
/// `attributes` dictionary decodes; an ill-formed optional `mode` or
/// `targets` falls back to its default.
pub open spec fn spec_mesh_primitive(j: Json) -> Option<MeshPrimitiveView> {
    if !(j is Obj) {
        None
    } else {
        let attrs = match json_get(j, "attributes"@) {
            Some(Json::Obj(entries)) => spec_attr_pairs(entries@),
            _ => None,
        };
        match attrs {
            None => None,
            Some(attributes) => Some(
                MeshPrimitiveView {
                    attributes: attributes,
                    indices: spec_opt_usize(j, "indices"@),
                    material: spec_opt_usize(j, "material"@),
                    mode: match json_get(j, "mode"@) {
                        Some(mj) => spec_primitive_mode(mj),
                        None => None,
                    },
                    targets: match json_get(j, "targets"@) {
                        Some(Json::Arr(items)) => match spec_target_items(items@) {
                            Some(t) => t,
                            None => Seq::empty(),
                        },
                        _ => Seq::empty(),
                    },
                    extensions: spec_ext_field(j, "extensions"@),
                },
            ),
        }
    }
}

impl MeshPrimitive {
    /// Decodes a mesh primitive.
    pub fn from_json_value(j: &Json) -> (r: Option<MeshPrimitive>)
        ensures
            r matches Some(p) ==> spec_mesh_primitive(*j) == Some(p@),
            r is None <==> spec_mesh_primitive(*j) is None,
    {
        match j {
            Json::Obj(_) => {},
            _ => {
                return None;
            },
        }
        let attributes = match j.get("attributes") {
            Some(av) => match av {
                Json::Obj(entries) => match attr_pairs(entries) {
                    Some(a) => a,
                    None => {
                        return None;
                    },
                },
                _ => {
                    return None;
                },
            },
            None => {
                return None;
            },
        };
        let mode = match j.get("mode") {
            Some(mj) => MeshPrimitiveMode::from_json_value(mj),
            None => None,
        };
        let targets = match j.get("targets") {
            Some(tv) => match tv {
                Json::Arr(items) => match target_items(items) {
                    Some(t) => t,
                    None => Vec::new(),
                },
                _ => Vec::new(),
            },
            None => Vec::new(),
        };
        let p = MeshPrimitive {
            attributes,
            indices: opt_usize(j, "indices"),
            material: opt_usize(j, "material"),
            mode,
            targets,
            extensions: ext_field(j, "extensions"),
        };
        proof {
            assert(p@.targets =~= spec_mesh_primitive(*j).unwrap().targets);
        }
        Some(p)
    }
}

/// What an array of animation channels decodes to.
pub open spec fn spec_channel_items(items: Seq<Json>) -> Option<Seq<AnimationChannel>>
    decreases items.len(),
{
    if items.len() == 0 {
        Some(Seq::empty())
    } else {
        match (spec_channel(items[0]), spec_channel_items(items.drop_first())) {
            (Some(v), Some(rest)) => Some(seq![v] + rest),
            _ => None,
        }
    }
}

fn channel_items(items: &Vec<Json>) -> (r: Option<Vec<AnimationChannel>>)
    ensures
        r matches Some(v) ==> spec_channel_items(items@) == Some(v@),
        r is None <==> spec_channel_items(items@) is None,
{
    let n = items.len();
    let mut acc: Vec<AnimationChannel> = Vec::new();
    let mut i: usize = 0;
    assert(items@.skip(0) =~= items@);
    while i < n
        invariant
            i <= n,
            n == items@.len(),
            match spec_channel_items(items@.skip(i as int)) {
                Some(rest) => spec_channel_items(items@) == Some(acc@ + rest),
                None => spec_channel_items(items@) is None,
            },
            spec_channel_items(items@) is None ==> spec_channel_items(
                items@.skip(i as int),
            ) is None,
        decreases n - i,
    {
        assert(items@.skip(i as int)[0] == items@[i as int]);
        assert(items@.skip(i as int).drop_first() =~= items@.skip(i as int + 1));
        let v = match AnimationChannel::from_json_value(&items[i]) {
            Some(v) => v,
            None => {
                return None;
            },
        };
        let ghost old_acc = acc@;
        acc.push(v);
        proof {
            assert(acc@ =~= old_acc + seq![acc@.last()]);
            match spec_channel_items(items@.skip(i as int + 1)) {
                Some(rest) => {
                    assert(old_acc + (seq![acc@.last()] + rest) =~= acc@ + rest);
                },
                None => {},
            }
        }
        i = i + 1;
    }
    assert(items@.skip(n as int).len() == 0);
    assert(acc@ + Seq::<AnimationChannel>::empty() =~= acc@);
    Some(acc)
}

/// What an array of animation samplers decodes to.
pub open spec fn spec_anim_sampler_items(items: Seq<Json>) -> Option<Seq<AnimationSampler>>
    decreases items.len(),
{
    if items.len() == 0 {
        Some(Seq::empty())
    } else {
        match (spec_anim_sampler(items[0]), spec_anim_sampler_items(items.drop_first())) {
            (Some(v), Some(rest)) => Some(seq![v] + rest),
            _ => None,
        }
    }
}

fn anim_sampler_items(items: &Vec<Json>) -> (r: Option<Vec<AnimationSampler>>)
    ensures
        r matches Some(v) ==> spec_anim_sampler_items(items@) == Some(v@),
        r is None <==> spec_anim_sampler_items(items@) is None,
{
    let n = items.len();
    let mut acc: Vec<AnimationSampler> = Vec::new();
    let mut i: usize = 0;
    assert(items@.skip(0) =~= items@);
    while i < n
        invariant
            i <= n,
            n == items@.len(),
            match spec_anim_sampler_items(items@.skip(i as int)) {
                Some(rest) => spec_anim_sampler_items(items@) == Some(acc@ + rest),
                None => spec_anim_sampler_items(items@) is None,
            },
            spec_anim_sampler_items(items@) is None ==> spec_anim_sampler_items(
                items@.skip(i as int),
            ) is None,
        decreases n - i,
    {
        assert(items@.skip(i as int)[0] == items@[i as int]);
        assert(items@.skip(i as int).drop_first() =~= items@.skip(i as int + 1));
        let v = match AnimationSampler::from_json_value(&items[i]) {
            Some(v) => v,
            None => {
                return None;
            },
        };
        let ghost old_acc = acc@;
        acc.push(v);
        proof {
            assert(acc@ =~= old_acc + seq![acc@.last()]);
            match spec_anim_sampler_items(items@.skip(i as int + 1)) {
                Some(rest) => {
                    assert(old_acc + (seq![acc@.last()] + rest) =~= acc@ + rest);
                },
                None => {},
            }
        }
        i = i + 1;
    }
    assert(items@.skip(n as int).len() == 0);
    assert(acc@ + Seq::<AnimationSampler>::empty() =~= acc@);
    Some(acc)
}

/// A keyframe animation; `channels` and `samplers` are required.
#[derive(Debug, Clone, PartialEq, Eq)]
pub struct Animation {
    /// An array of channels, each of which targets an animation's sampler
    /// at a node's property.
    pub channels: Vec<AnimationChannel>,
    /// An array of samplers that combines input and output accessors with
    /// an interpolation algorithm.
    pub samplers: Vec<AnimationSampler>,
    /// The user-defined name of this object.
    pub name: Option<String>,
    /// Dictionary object with extension-specific objects.
    pub extensions: Option<Extension>,
}

/// An animation as the model sees it.
pub ghost struct AnimationView {
    pub channels: Seq<AnimationChannel>,
    pub samplers: Seq<AnimationSampler>,
    pub name: Option<String>,
    pub extensions: Option<Extension>,
}

impl View for Animation {
    type V = AnimationView;

    open spec fn view(&self) -> AnimationView {
        AnimationView {
            channels: self.channels@,
            samplers: self.samplers@,
            name: self.name,
            extensions: self.extensions,
        }
    }
}

impl DeepView for Animation {
    type V = AnimationView;

    open spec fn deep_view(&self) -> AnimationView {
        self@
    }
}

/// What decoding an animation object yields: nothing unless both required
/// arrays decode.
pub open spec fn spec_animation(j: Json) -> Option<AnimationView> {
    if !(j is Obj) {
        None
    } else {
        let cs = match json_get(j, "channels"@) {
            Some(Json::Arr(items)) => spec_channel_items(items@),
            _ => None,
        };
        let ss = match json_get(j, "samplers"@) {
            Some(Json::Arr(items)) => spec_anim_sampler_items(items@),
            _ => None,
        };
        match (cs, ss) {
            (Some(channels), Some(samplers)) => Some(
                AnimationView {
                    channels: channels,
                    samplers: samplers,
                    name: json_get_str(j, "name"@),
                    extensions: spec_ext_field(j, "extensions"@),
                },
            ),
            _ => None,
        }
    }
}

impl Animation {
    /// Decodes an animation object.
    pub fn from_json_value(j: &Json) -> (r: Option<Animation>)
        ensures
            r matches Some(a) ==> spec_animation(*j) == Some(a@),
            r is None <==> spec_animation(*j) is None,
    {
        match j {
            Json::Obj(_) => {},
            _ => {
                return None;
            },
        }
        let channels = match j.get("channels") {
            Some(v) => match v {
                Json::Arr(items) => match channel_items(items) {
                    Some(c) => c,
                    None => {
                        return None;
                    },
                },
                _ => {
                    return None;
                },
            },
            None => {
                return None;
            },
        };
        let samplers = match j.get("samplers") {
            Some(v) => match v {
                Json::Arr(items) => match anim_sampler_items(items) {
                    Some(s) => s,
                    None => {
                        return None;
                    },
                },
                _ => {
                    return None;
                },
            },
            None => {
                return None;
            },
        };
        Some(
            Animation {
                channels,
                samplers,
                name: opt_string(j, "name"),
                extensions: ext_field(j, "extensions"),
            },
        )
    }
}

/// What an array of animation objects decodes to.
pub open spec fn spec_animation_items(items: Seq<Json>) -> Option<Seq<AnimationView>>
    decreases items.len(),
{
    if items.len() == 0 {
        Some(Seq::empty())
    } else {
        match (spec_animation(items[0]), spec_animation_items(items.drop_first())) {
            (Some(v), Some(rest)) => Some(seq![v] + rest),
            _ => None,
        }
    }
}

fn animation_items(items: &Vec<Json>) -> (r: Option<Vec<Animation>>)
    ensures
        r matches Some(v) ==> spec_animation_items(items@) == Some(v.deep_view()),
        r is None <==> spec_animation_items(items@) is None,
{
    let n = items.len();
    let mut acc: Vec<Animation> = Vec::new();
    let mut i: usize = 0;
    assert(items@.skip(0) =~= items@);
    assert(acc.deep_view() =~= Seq::<AnimationView>::empty());
    while i < n
        invariant
            i <= n,
            n == items@.len(),
            match spec_animation_items(items@.skip(i as int)) {
                Some(rest) => spec_animation_items(items@) == Some(acc.deep_view() + rest),
                None => spec_animation_items(items@) is None,
            },
            spec_animation_items(items@) is None ==> spec_animation_items(
                items@.skip(i as int),
            ) is None,
        decreases n - i,
    {
        assert(items@.skip(i as int)[0] == items@[i as int]);
        assert(items@.skip(i as int).drop_first() =~= items@.skip(i as int + 1));
        let v = match Animation::from_json_value(&items[i]) {
            Some(v) => v,
            None => {
                return None;
            },
        };
        let ghost old_deep = acc.deep_view();
        let ghost vv = v@;
        acc.push(v);
        proof {
            assert(acc.deep_view() =~= old_deep + seq![vv]);
            match spec_animation_items(items@.skip(i as int + 1)) {
                Some(rest) => {
                    assert(old_deep + (seq![vv] + rest) =~= acc.deep_view() + rest);
                },
                None => {},
            }
        }
        i = i + 1;
    }
    assert(items@.skip(n as int).len() == 0);
    assert(acc.deep_view() + Seq::<AnimationView>::empty() =~= acc.deep_view());
    Some(acc)
}

/// What an array of sampler objects decodes to.
pub open spec fn spec_sampler_items(items: Seq<Json>) -> Option<Seq<Sampler>>
    decreases items.len(),
{
    if items.len() == 0 {
        Some(Seq::empty())
    } else {
        match (spec_sampler(items[0]), spec_sampler_items(items.drop_first())) {
            (Some(v), Some(rest)) => Some(seq![v] + rest),
            _ => None,
        }
    }
}

fn sampler_items(items: &Vec<Json>) -> (r: Option<Vec<Sampler>>)
    ensures
        r matches Some(v) ==> spec_sampler_items(items@) == Some(v@),
        r is None <==> spec_sampler_items(items@) is None,
{
    let n = items.len();
    let mut acc: Vec<Sampler> = Vec::new();
    let mut i: usize = 0;
    assert(items@.skip(0) =~= items@);
    while i < n
        invariant
            i <= n,
            n == items@.len(),
            match spec_sampler_items(items@.skip(i as int)) {
                Some(rest) => spec_sampler_items(items@) == Some(acc@ + rest),
                None => spec_sampler_items(items@) is None,
            },
            spec_sampler_items(items@) is None ==> spec_sampler_items(
                items@.skip(i as int),
            ) is None,
        decreases n - i,
    {
        assert(items@.skip(i as int)[0] == items@[i as int]);
        assert(items@.skip(i as int).drop_first() =~= items@.skip(i as int + 1));
        let v = match Sampler::from_json_value(&items[i]) {
            Some(v) => v,
            None => {
                return None;
            },
        };
        let ghost old_acc = acc@;
        acc.push(v);
        proof {
            assert(acc@ =~= old_acc + seq![acc@.last()]);
            match spec_sampler_items(items@.skip(i as int + 1)) {
                Some(rest) => {
                    assert(old_acc + (seq![acc@.last()] + rest) =~= acc@ + rest);
                },
                None => {},
            }
        }
        i = i + 1;
    }
    assert(items@.skip(n as int).len() == 0);
    assert(acc@ + Seq::<Sampler>::empty() =~= acc@);
    Some(acc)
}

/// The root object for a glTF asset: `asset` is required, every other
/// field falls back to its default when absent. Fields whose element
/// types carry floating-point data are not part of this model.
#[derive(Debug, Clone, PartialEq, Eq)]
pub struct GlTf {
    /// Names of glTF extensions used somewhere in this asset.
    pub extensions_used: Vec<String>,
    /// Names of glTF extensions required to properly load this asset.
    pub extensions_required: Vec<String>,
    /// An array of keyframe animations.
    pub animations: Vec<Animation>,
    /// Metadata about the glTF asset.
    pub asset: Asset,
    /// An array of buffers.
    pub buffers: Vec<Buffer>,
    /// An array of bufferViews.
    pub buffer_views: Vec<BufferView>,
    /// An array of images.
    pub images: Vec<Image>,
    /// The index of the default scene.
    pub scene: Option<usize>,
    /// An array of samplers.
    pub samplers: Vec<Sampler>,
    /// An array of scenes.
    pub scenes: Vec<Scene>,
    /// An array of skins.
    pub skins: Vec<Skin>,
    /// An array of textures.
    pub textures: Vec<Texture>,
    /// Dictionary object with extension-specific objects.
    pub extensions: Option<Extension>,
}

/// A document root as the model sees it.
pub ghost struct GlTfView {
    pub extensions_used: Seq<String>,
    pub extensions_required: Seq<String>,
    pub animations: Seq<AnimationView>,
    pub asset: Asset,
    pub buffers: Seq<Buffer>,
    pub buffer_views: Seq<BufferView>,
    pub images: Seq<Image>,
    pub samplers: Seq<Sampler>,
    pub scene: Option<usize>,
    pub scenes: Seq<SceneView>,
    pub skins: Seq<SkinView>,
    pub textures: Seq<Texture>,
    pub extensions: Option<Extension>,
}

impl View for GlTf {
    type V = GlTfView;

    open spec fn view(&self) -> GlTfView {
        GlTfView {
            extensions_used: self.extensions_used@,
            extensions_required: self.extensions_required@,
            animations: self.animations.deep_view(),
            asset: self.asset,
            buffers: self.buffers@,
            buffer_views: self.buffer_views@,
            images: self.images@,
            samplers: self.samplers@,
            scene: self.scene,
            scenes: self.scenes.deep_view(),
            skins: self.skins.deep_view(),
            textures: self.textures@,
            extensions: self.extensions,
        }
    }
}

impl DeepView for GlTf {
    type V = GlTfView;

    open spec fn deep_view(&self) -> GlTfView {
        self@
    }
}

/// What decoding a document root yields: nothing unless the node is an
/// object whose required `asset` decodes; every optional field falls back
/// to its default — the empty sequence for arrays, an absent value
/// otherwise.
pub open spec fn spec_gltf(j: Json) -> Option<GlTfView> {
    if !(j is Obj) {
        None
    } else {
        match json_get(j, "asset"@) {
            None => None,
            Some(aj) => match spec_asset(aj) {
                None => None,
                Some(asset) => Some(
                    GlTfView {
                        extensions_used: match spec_string_vec_field(j, "extensionsUsed"@) {
                            Some(s) => s,
                            None => Seq::empty(),
                        },
                        extensions_required: match spec_string_vec_field(
                            j,
                            "extensionsRequired"@,
                        ) {
                            Some(s) => s,
                            None => Seq::empty(),
                        },
                        animations: match json_get(j, "animations"@) {
                            Some(Json::Arr(items)) => match spec_animation_items(items@) {
                                Some(s) => s,
                                None => Seq::empty(),
                            },
                            _ => Seq::empty(),
                        },
                        asset: asset,
                        buffers: match json_get(j, "buffers"@) {
                            Some(Json::Arr(items)) => match spec_buffer_items(items@) {
                                Some(s) => s,
                                None => Seq::empty(),
                            },
                            _ => Seq::empty(),
                        },
                        buffer_views: match json_get(j, "bufferViews"@) {
                            Some(Json::Arr(items)) => match spec_buffer_view_items(items@) {
                                Some(s) => s,
                                None => Seq::empty(),
                            },
                            _ => Seq::empty(),
                        },
                        images: match json_get(j, "images"@) {
                            Some(Json::Arr(items)) => match spec_image_items(items@) {
                                Some(s) => s,
                                None => Seq::empty(),
                            },
                            _ => Seq::empty(),
                        },
                        samplers: match json_get(j, "samplers"@) {
                            Some(Json::Arr(items)) => match spec_sampler_items(items@) {
                                Some(s) => s,
                                None => Seq::empty(),
                            },
                            _ => Seq::empty(),
                        },
                        scene: spec_opt_usize(j, "scene"@),
                        scenes: match json_get(j, "scenes"@) {
                            Some(Json::Arr(items)) => match spec_scene_items(items@) {
                                Some(s) => s,
                                None => Seq::empty(),
                            },
                            _ => Seq::empty(),
                        },
                        skins: match json_get(j, "skins"@) {
                            Some(Json::Arr(items)) => match spec_skin_items(items@) {
                                Some(s) => s,
                                None => Seq::empty(),
                            },
                            _ => Seq::empty(),
                        },
                        textures: match json_get(j, "textures"@) {
                            Some(Json::Arr(items)) => match spec_texture_items(items@) {
                                Some(s) => s,
                                None => Seq::empty(),
                            },
                            _ => Seq::empty(),
                        },
                        extensions: spec_ext_field(j, "extensions"@),
                    },
                ),
            },
        }
    }
}

/// What decoding a whole document from text yields: nothing when the text
/// is not valid JSON or the root object does not decode.
pub open spec fn spec_gltf_text(text: Seq<char>) -> Option<GlTfView> {
    match spec_json_doc(text) {
        Some(j) => spec_gltf(j),
        None => None,
    }
}

impl GlTf {
    /// Decodes a document root from a parsed node.
    #[verifier::rlimit(50)]
    pub fn from_json_value(j: &Json) -> (r: Option<GlTf>)
        ensures
            r matches Some(g) ==> spec_gltf(*j) == Some(g@),
            r is None <==> spec_gltf(*j) is None,
    {
        match j {
            Json::Obj(_) => {},
            _ => {
                return None;
            },
        }
        let asset = match j.get("asset") {
            None => {
                return None;
            },
            Some(aj) => match Asset::from_json_value(aj) {
                Some(a) => a,
                None => {
                    return None;
                },
            },
        };
        let extensions_used = match string_vec_field(j, "extensionsUsed") {
            Some(v) => v,
            None => Vec::new(),
        };
        let extensions_required = match string_vec_field(j, "extensionsRequired") {
            Some(v) => v,
            None => Vec::new(),
        };
        let animations = match j.get("animations") {
            Some(v) => match v {
                Json::Arr(items) => match animation_items(items) {
                    Some(b) => b,
                    None => Vec::new(),
                },
                _ => Vec::new(),
            },
            None => Vec::new(),
        };
        let buffers = match j.get("buffers") {
            Some(v) => match v {
                Json::Arr(items) => match buffer_items(items) {
                    Some(b) => b,
                    None => Vec::new(),
                },
                _ => Vec::new(),
            },
            None => Vec::new(),
        };
        let buffer_views = match j.get("bufferViews") {
            Some(v) => match v {
                Json::Arr(items) => match buffer_view_items(items) {
                    Some(b) => b,
                    None => Vec::new(),
                },
                _ => Vec::new(),
            },
            None => Vec::new(),
        };
        let images = match j.get("images") {
            Some(v) => match v {
                Json::Arr(items) => match image_items(items) {
                    Some(b) => b,
                    None => Vec::new(),
                },
                _ => Vec::new(),
            },
            None => Vec::new(),
        };
        let samplers = match j.get("samplers") {
            Some(v) => match v {
                Json::Arr(items) => match sampler_items(items) {
                    Some(b) => b,
                    None => Vec::new(),
                },
                _ => Vec::new(),
            },
            None => Vec::new(),
        };
        let scenes = match j.get("scenes") {
            Some(v) => match v {
                Json::Arr(items) => match scene_items(items) {
                    Some(b) => b,
                    None => Vec::new(),
                },
                _ => Vec::new(),
            },
            None => Vec::new(),
        };
        let skins = match j.get("skins") {
            Some(v) => match v {
                Json::Arr(items) => match skin_items(items) {
                    Some(b) => b,
                    None => Vec::new(),
                },
                _ => Vec::new(),
            },
            None => Vec::new(),
        };
        let textures = match j.get("textures") {
            Some(v) => match v {
                Json::Arr(items) => match texture_items(items) {
                    Some(b) => b,
                    None => Vec::new(),
                },
                _ => Vec::new(),
            },
            None => Vec::new(),
        };
        let g = GlTf {
            extensions_used,
            extensions_required,
            animations,
            asset,
            buffers,
            buffer_views,
            images,
            samplers,
            scene: opt_usize(j, "scene"),
            scenes,
            skins,
            textures,
            extensions: ext_field(j, "extensions"),
        };
        proof {
            assert(g@.animations =~= spec_gltf(*j).unwrap().animations);
            assert(g@.scenes =~= spec_gltf(*j).unwrap().scenes);
            assert(g@.skins =~= spec_gltf(*j).unwrap().skins);
        }
        Some(g)
    }

    /// Decodes a document root from JSON text.
    pub fn from_json(text: &str) -> (r: Option<GlTf>)
        ensures
            r matches Some(g) ==> spec_gltf_text(text@) == Some(g@),
            r is None <==> spec_gltf_text(text@) is None,
    {
        match parse_json(text) {
            Some(j) => GlTf::from_json_value(&j),
            None => None,
        }
    }
}

/// Requiredness, failing half: an object that lacks its required
/// `version` field never decodes as an asset, and a document whose
/// `asset` lacks it never decodes at all.
pub proof fn lemma_required_field_missing(j: Json, aj: Json)
    requires
        json_get(aj, "version"@) is None,
        json_get(j, "asset"@) == Some(aj),
    ensures
        spec_asset(aj) is None,
        spec_gltf(j) is None,
{
}

/// Requiredness, succeeding half: a decoded document's absent optional
/// fields hold their defaults — the empty sequence for an array-typed
/// field, an absent value otherwise.
pub proof fn lemma_optional_field_defaults(j: Json, g: GlTfView)
    requires
        spec_gltf(j) == Some(g),
        json_get(j, "scenes"@) is None,
        json_get(j, "scene"@) is None,
    ensures
        g.scenes == Seq::<SceneView>::empty(),
        g.scene is None,
{
}

} // verus!
