//! Tests for the glTF document decoders: required fields, defaults, and
//! the recognized enumeration codes.

use kgltf::gltf::{
    AccessorComponentType, AccessorSparse, AccessorSparseIndicesComponentType, AccessorType,
    Animation, AnimationChannelTargetPath, AnimationSampler, AnimationSamplerInterpolation, Asset,
    Buffer, BufferView, BufferViewTarget, CameraType, GlTf, Image, ImageMimeType,
    MaterialAlphaMode, MeshPrimitive, MeshPrimitiveMode, Sampler, SamplerMagFilter,
    SamplerMinFilter, SamplerWrapS, SamplerWrapT, Scene, Skin, TextureInfo,
};
use kgltf::json::parse_json;

#[test]
fn required_field_missing_fails_decode() {
    // `version` is required on the asset.
    assert!(GlTf::from_json(r#"{"asset":{}}"#).is_none());
    // `asset` itself is required on the document root.
    assert!(GlTf::from_json(r#"{}"#).is_none());
    let j = parse_json(r#"{"generator":"g"}"#).unwrap();
    assert!(Asset::from_json_value(&j).is_none());
}

#[test]
fn optional_fields_take_defaults() {
    let g = GlTf::from_json(r#"{"asset":{"version":"2.0"}}"#).unwrap();
    assert_eq!(g.asset.version, "2.0");
    assert!(g.scenes.is_empty());
    assert!(g.scene.is_none());
    assert!(g.buffers.is_empty());
    assert!(g.extensions_used.is_empty());
    assert!(g.extensions.is_none());
}

#[test]
fn populated_document_decodes() {
    let text = r#"{
        "asset": { "version": "2.0", "generator": "gen", "copyright": "c" },
        "scene": 0,
        "scenes": [ { "nodes": [0, 1], "name": "main" } ],
        "buffers": [ { "byteLength": 42 } ],
        "bufferViews": [ { "buffer": 0, "byteLength": 42, "target": 34962 } ],
        "images": [ { "uri": "a.png", "mimeType": "image/png" } ],
        "skins": [ { "joints": [3, 4] } ],
        "textures": [ { "sampler": 1, "source": 0 } ],
        "extensionsUsed": [ "X" ],
        "extensions": {}
    }"#;
    let g = GlTf::from_json(text).unwrap();
    assert_eq!(g.asset.generator.as_deref(), Some("gen"));
    assert_eq!(g.scene, Some(0));
    assert_eq!(g.scenes[0].nodes, vec![0, 1]);
    assert_eq!(g.scenes[0].name.as_deref(), Some("main"));
    assert_eq!(g.buffers[0].byte_length, 42);
    assert_eq!(g.buffer_views[0].target, Some(BufferViewTarget::ArrayBuffer));
    assert_eq!(g.images[0].mime_type, Some(ImageMimeType::ImagePng));
    assert_eq!(g.skins[0].joints, vec![3, 4]);
    assert_eq!(g.textures[0].sampler, Some(1));
    assert_eq!(g.extensions_used, vec!["X".to_string()]);
    assert!(g.extensions.is_some());
}

#[test]
fn skin_requires_joints() {
    let j = parse_json(r#"{"name":"s"}"#).unwrap();
    assert!(Skin::from_json_value(&j).is_none());
    let j = parse_json(r#"{"joints":[1]}"#).unwrap();
    assert_eq!(Skin::from_json_value(&j).unwrap().joints, vec![1]);
    // An invalid skin inside the document's array falls back to the
    // array's default rather than failing the document.
    let g = GlTf::from_json(r#"{"asset":{"version":"2.0"},"skins":[{}]}"#).unwrap();
    assert!(g.skins.is_empty());
}

#[test]
fn scene_nodes_default_empty() {
    let j = parse_json(r#"{"name":"empty"}"#).unwrap();
    let s = Scene::from_json_value(&j).unwrap();
    assert!(s.nodes.is_empty());
    assert_eq!(s.name.as_deref(), Some("empty"));
}

#[test]
fn buffer_requires_byte_length() {
    let j = parse_json(r#"{"uri":"b.bin"}"#).unwrap();
    assert!(Buffer::from_json_value(&j).is_none());
    let j = parse_json(r#"{"uri":"b.bin","byteLength":7}"#).unwrap();
    let b = Buffer::from_json_value(&j).unwrap();
    assert_eq!(b.byte_length, 7);
    assert_eq!(b.uri.as_deref(), Some("b.bin"));
}

#[test]
fn buffer_view_target_codes() {
    let j = parse_json(r#"{"buffer":0,"byteLength":1,"target":34963}"#).unwrap();
    let bv = BufferView::from_json_value(&j).unwrap();
    assert_eq!(bv.target, Some(BufferViewTarget::ElementArrayBuffer));
    let j = parse_json(r#"{"buffer":0,"byteLength":1,"target":9999}"#).unwrap();
    let bv = BufferView::from_json_value(&j).unwrap();
    assert_eq!(bv.target, None);
}

#[test]
fn image_mime_types() {
    let j = parse_json(r#"{"mimeType":"image/jpeg"}"#).unwrap();
    assert_eq!(Image::from_json_value(&j).unwrap().mime_type, Some(ImageMimeType::ImageJpeg));
    let j = parse_json(r#"{"mimeType":"text/plain"}"#).unwrap();
    assert_eq!(Image::from_json_value(&j).unwrap().mime_type, None);
}

#[test]
fn sampler_filter_and_wrap_codes() {
    let j = parse_json(r#"{"magFilter":9729,"minFilter":9987,"wrapS":33071,"wrapT":10497}"#)
        .unwrap();
    let s = Sampler::from_json_value(&j).unwrap();
    assert_eq!(s.mag_filter, Some(SamplerMagFilter::Linear));
    assert_eq!(s.min_filter, Some(SamplerMinFilter::LinearMipmapLinear));
    assert_eq!(s.wrap_s, Some(SamplerWrapS::ClampToEdge));
    assert_eq!(s.wrap_t, Some(SamplerWrapT::Repeat));
    let j = parse_json(r#"{"magFilter":1234}"#).unwrap();
    assert_eq!(Sampler::from_json_value(&j).unwrap().mag_filter, None);
}

#[test]
fn texture_info_requires_index() {
    let j = parse_json(r#"{"texCoord":1}"#).unwrap();
    assert!(TextureInfo::from_json_value(&j).is_none());
    let j = parse_json(r#"{"index":2,"texCoord":1}"#).unwrap();
    let t = TextureInfo::from_json_value(&j).unwrap();
    assert_eq!(t.index, 2);
    assert_eq!(t.tex_coord, Some(1));
}

#[test]
fn animation_requires_channels_and_samplers() {
    let j = parse_json(r#"{"channels":[]}"#).unwrap();
    assert!(Animation::from_json_value(&j).is_none());
    let text = r#"{
        "channels": [ { "sampler": 0, "target": { "node": 1, "path": "rotation" } } ],
        "samplers": [ { "input": 0, "output": 1, "interpolation": "STEP" } ]
    }"#;
    let a = Animation::from_json_value(&parse_json(text).unwrap()).unwrap();
    assert_eq!(a.channels[0].sampler, 0);
    assert_eq!(a.channels[0].target.path, AnimationChannelTargetPath::Rotation);
    assert_eq!(a.samplers[0].interpolation, Some(AnimationSamplerInterpolation::Step));
}

#[test]
fn animation_sampler_requires_input_and_output() {
    let j = parse_json(r#"{"input":0}"#).unwrap();
    assert!(AnimationSampler::from_json_value(&j).is_none());
}

#[test]
fn mesh_primitive_requires_attributes() {
    let j = parse_json(r#"{"indices":0}"#).unwrap();
    assert!(MeshPrimitive::from_json_value(&j).is_none());
    let text = r#"{
        "attributes": { "POSITION": 0, "NORMAL": 1 },
        "indices": 2,
        "mode": 4,
        "targets": [ { "POSITION": 3 } ]
    }"#;
    let p = MeshPrimitive::from_json_value(&parse_json(text).unwrap()).unwrap();
    assert_eq!(p.attributes, vec![("NORMAL".to_string(), 1), ("POSITION".to_string(), 0)]);
    assert_eq!(p.indices, Some(2));
    assert_eq!(p.mode, Some(MeshPrimitiveMode::Triangles));
    assert_eq!(p.targets, vec![vec![("POSITION".to_string(), 3)]]);
    let j = parse_json(r#"{"attributes":{},"mode":99}"#).unwrap();
    assert_eq!(MeshPrimitive::from_json_value(&j).unwrap().mode, None);
}

#[test]
fn camera_type_and_alpha_mode_names() {
    let j = parse_json(r#""orthographic""#).unwrap();
    assert_eq!(CameraType::from_json_value(&j), Some(CameraType::Orthographic));
    let j = parse_json(r#""sideways""#).unwrap();
    assert_eq!(CameraType::from_json_value(&j), None);
    let j = parse_json(r#""MASK""#).unwrap();
    assert_eq!(MaterialAlphaMode::from_json_value(&j), Some(MaterialAlphaMode::Mask));
    let j = parse_json(r#""mask""#).unwrap();
    assert_eq!(MaterialAlphaMode::from_json_value(&j), None);
}

#[test]
fn accessor_enums_and_sparse() {
    let j = parse_json(r#""VEC3""#).unwrap();
    assert_eq!(AccessorType::from_json_value(&j), Some(AccessorType::Vec3));
    let j = parse_json("5126").unwrap();
    assert_eq!(AccessorComponentType::from_json_value(&j), Some(AccessorComponentType::Float));
    let text = r#"{
        "count": 2,
        "indices": { "bufferView": 1, "componentType": 5123 },
        "values": { "bufferView": 2 }
    }"#;
    let s = AccessorSparse::from_json_value(&parse_json(text).unwrap()).unwrap();
    assert_eq!(s.count, 2);
    assert_eq!(
        s.indices.component_type,
        AccessorSparseIndicesComponentType::UnsignedShort
    );
    assert_eq!(s.values.buffer_view, 2);
    let j = parse_json(r#"{"count":2,"indices":{"bufferView":1,"componentType":5123}}"#).unwrap();
    assert!(AccessorSparse::from_json_value(&j).is_none());
}

#[test]
fn negative_index_rejected() {
    let j = parse_json(r#"{"joints":[-1]}"#).unwrap();
    assert!(Skin::from_json_value(&j).is_none());
}
