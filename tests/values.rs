use node_engine::inputs::prepare_inputs;
use node_engine::{NodeGraphCompile, NodeId, OutputId};
use node_engine::{
    decode_color, DecodedColor, NamedColor, Node, ParameterDataType, ParameterDefinition,
    ParameterValue,
};
use node_engine::{
    color_rgb_to_u32, is_swizzle, is_swizzle_limit, u32_to_color, CompiledValue, DataType,
    DataTypeClass, DynamicSize, Error, Input, InputKey, InputTyped, NodeConcreteType,
    NodeDefinition, NodeFilter, NodeFrameDragState, NodeFrameState, OutputTyped, PortDefinition,
    SwizzleMask, Value,
};

fn cv(text: &str, dt: DataType) -> CompiledValue {
    CompiledValue { value: text.to_string(), dt }
}

#[test]
fn test_typed_outputs() {
    let out0 = OutputTyped::new(DataType::F32);
    let out1 = OutputTyped::new(DataType::F32);
    println!("{out0:?} {out1:?}");
    assert_eq!(out0.data_type(), DataType::F32);
    assert!(!out1.is_dynamic());
}

#[test]
fn scalar_to_vec4_fills_alpha() {
    let mut v = cv("x", DataType::F32);
    v.convert(DataType::Vec4).unwrap();
    assert_eq!(v.value, "vec4<f32>(x, 0., 0., 1.)");
    assert_eq!(v.dt, DataType::Vec4);
    let mut i = cv("7", DataType::I32);
    i.convert(DataType::Vec2).unwrap();
    assert_eq!(i.value, "vec2<f32>(7, 0.)");
}

#[test]
fn matrix_narrows_by_columns() {
    let mut m = cv("m", DataType::Mat4);
    m.convert(DataType::Mat2).unwrap();
    assert_eq!(m.value, "mat2x2<f32>(m[0].xy, m[1].xy)");
    let mut m3 = cv("m", DataType::Mat4);
    m3.convert(DataType::Mat3).unwrap();
    assert_eq!(m3.value, "mat3x3<f32>(m[0].xyz, m[1].xyz, m[2].xyz)");
}

#[test]
fn matrix_never_widens() {
    let mut m = cv("m", DataType::Mat2);
    assert_eq!(
        m.convert(DataType::Mat3),
        Err(Error::Conversion { from: DataType::Mat2, to: DataType::Mat3 })
    );
    assert_eq!(m.value, "m");
    assert_eq!(m.dt, DataType::Mat2);
}

#[test]
fn vector_conversions() {
    let mut v = cv("v", DataType::Vec4);
    v.convert(DataType::Vec3).unwrap();
    assert_eq!(v.value, "vec3<f32>(v.xyz)");
    let mut w = cv("w", DataType::Vec2);
    w.convert(DataType::Vec4).unwrap();
    assert_eq!(w.value, "vec4<f32>(w.xy, 0., 1.)");
    let mut s = cv("s", DataType::Vec3);
    s.convert(DataType::U32).unwrap();
    assert_eq!(s.value, "u32(s.x)");
    let mut d = cv("d", DataType::Vec3);
    d.convert(DataType::DynamicVector).unwrap();
    assert_eq!(d.value, "d");
    assert_eq!(d.dt, DataType::Vec3);
    let mut t = cv("t", DataType::Texture2D);
    assert!(t.convert(DataType::Vec4).is_err());
}

#[test]
fn compatibility_rules() {
    assert!(DataType::Vec2.is_compatible(&DataType::Vec4));
    assert!(DataType::F32.is_compatible(&DataType::Vec3));
    assert!(!DataType::Mat4.is_compatible(&DataType::Mat2));
    assert!(DataType::Mat3.is_compatible(&DataType::DynamicMatrix));
    assert!(DataType::Dynamic.is_compatible(&DataType::Mat2));
    assert!(!DataType::Vec4.is_compatible(&DataType::Mat4));
    assert!(!DataType::Texture2D.is_compatible(&DataType::Texture3D));
    assert_eq!(DataType::DynamicVector.class(), DataTypeClass::Vector);
    assert!(DataType::DynamicMatrix.is_dynamic());
    assert_eq!(DynamicSize::D3.len(), 3);
}

#[test]
fn resolver_picks_smallest_width() {
    let mut c = NodeConcreteType::new();
    c.add_input_type(DataType::Vec4);
    assert_eq!(c.data_type(), Some(DataType::Vec4));
    c.add_input_type(DataType::Vec2);
    c.add_input_type(DataType::F32);
    assert_eq!(c.min, Some(DynamicSize::D2));
    assert_eq!(c.data_type(), Some(DataType::Vec2));
    let mut s = cv("s", DataType::F32);
    c.convert(&mut s).unwrap();
    assert_eq!(s.value, "vec2<f32>(s, 0.)");
    assert!(c.has_dynamic());
}

#[test]
fn resolver_matrix_and_scalar_classes() {
    let mut m = NodeConcreteType::new();
    m.add_input_type(DataType::Mat4);
    m.add_input_type(DataType::Mat3);
    assert_eq!(m.data_type(), Some(DataType::Mat3));
    let mut s = NodeConcreteType::new();
    s.add_input_type(DataType::I32);
    assert_eq!(s.data_type(), Some(DataType::F32));
    assert!(!NodeConcreteType::new().has_dynamic());
    let mut out = OutputTyped::new(DataType::DynamicMatrix);
    assert!(out.update_concrete_type(&m));
    assert_eq!(out.data_type(), DataType::Mat3);
    assert!(!out.update_concrete_type(&m));
}

#[test]
fn swizzle_filter_and_compile() {
    let mut mask = SwizzleMask("xq-yzwz".to_string());
    mask.filter();
    assert_eq!(mask.0, "xyzw");
    let v = SwizzleMask("xy".to_string()).compile(cv("v", DataType::Vec3)).unwrap();
    assert_eq!(v.value, "v.xy");
    assert_eq!(v.dt, DataType::Vec2);
    let s = SwizzleMask("xxx".to_string()).compile(cv("s", DataType::F32)).unwrap();
    assert_eq!(s.value, "vec3<f32>(s, s, s)");
    assert_eq!(s.dt, DataType::Vec3);
    assert_eq!(
        SwizzleMask("xz".to_string()).compile(cv("v", DataType::Vec2)),
        Err(Error::InvalidSwizzle)
    );
    assert_eq!(
        SwizzleMask("x".to_string()).compile(cv("m", DataType::Mat2)),
        Err(Error::Unsupported(DataType::Mat2))
    );
    assert!(is_swizzle('a'));
    assert!(!is_swizzle('q'));
    assert!(is_swizzle_limit(3, 'b'));
    assert!(!is_swizzle_limit(3, 'w'));
}

#[test]
fn port_literal_must_match() {
    let mut port = InputTyped::new(DataType::Vec2);
    assert_eq!(
        port.set_input(Input::Value(Value::I32(3))),
        Err(Error::WrongLiteralType { expected: DataType::Vec2, got: DataType::I32 })
    );
    assert_eq!(port.set_input(Input::Value(Value::Vec2([0, 0]))), Ok(None));
    let mut dynamic = InputTyped::new(DataType::Dynamic);
    assert_eq!(dynamic.set_input(Input::Value(Value::F32(0))), Ok(None));
    let mut mat = InputTyped::new(DataType::Mat2);
    let out = node_engine::OutputId::new(node_engine::NodeId(0), 0);
    assert_eq!(
        mat.set_input(Input::Connect(out, Some(DataType::Vec2))),
        Err(Error::IncompatibleConnection { port: DataType::Mat2, output: DataType::Vec2 })
    );
    assert_eq!(mat.set_input(Input::Connect(out, Some(DataType::DynamicMatrix))), Ok(None));
    assert_eq!(mat.set_input(Input::Disconnect), Ok(Some(out)));
}

#[test]
fn default_values() {
    assert_eq!(Value::default_for(DataType::DynamicVector), Value::Vec4([0, 0, 0, 0]));
    let one = 1.0f32.to_bits();
    assert_eq!(Value::default_for(DataType::Mat2), Value::Mat2([one, 0, 0, one]));
    assert_eq!(Value::default_for(DataType::DynamicMatrix).data_type(), DataType::Mat4);
}

#[test]
fn port_names_are_title_case() {
    let (key, def) = PortDefinition::new("base_color", DataType::Vec4);
    assert_eq!(key, "Base Color");
    assert_eq!(def.name, "Base Color");
    assert_eq!(def.field_name, "base_color");
}

#[test]
fn kind_ids_are_stable() {
    let a = NodeDefinition::new("Add", "node_engine::nodes::add");
    let b = NodeDefinition::new("Add", "node_engine::nodes::add");
    let c = NodeDefinition::new("Sub", "node_engine::nodes::sub");
    assert_eq!(a.id, b.id);
    assert_ne!(a.id, c.id);
    assert_ne!(a.id, 0);
    assert_eq!(a.package, "node_engine");
    assert_eq!(NodeDefinition::new("X", "plain").package, "plain");
}

#[test]
fn input_keys_by_index_and_name() {
    let mut def = NodeDefinition::new("Two", "node_engine::nodes::two");
    def.add_input("a", DataType::F32);
    def.add_input("b", DataType::F32);
    assert_eq!(def.get_input_idx(&InputKey::Name("B".to_string())), Ok(1));
    assert_eq!(def.get_input_idx(&InputKey::Idx(0)), Ok(0));
    assert_eq!(def.get_input_idx(&InputKey::Idx(2)), Err(Error::UnknownInput));
    assert_eq!(def.get_input_idx(&InputKey::Name("c".to_string())), Err(Error::UnknownInput));
}

#[test]
fn filter_ignores_case() {
    let filter = NodeFilter { name: "MATH".to_string() };
    assert!(filter.matches("Scalar Math"));
    assert!(!filter.matches("Color"));
    assert!(NodeFilter { name: String::new() }.matches("anything"));
    let def = NodeDefinition::new("Scalar Math", "node_engine::nodes::scalar_math");
    assert!(def.matches(&NodeFilter { name: "scalar".to_string() }));
}

#[test]
fn colors() {
    assert_eq!(color_rgb_to_u32([0x12, 0x34, 0x56]), 0x123456);
    assert_eq!(u32_to_color(0xFF8000), [255, 128, 0, 255]);
}

#[test]
fn frame_state_flags() {
    let mut frame = NodeFrameState::new();
    assert!(frame.take_updated());
    assert!(!frame.take_updated());
    assert!(!frame.is_dragging());
    frame.drag = Some(NodeFrameDragState::Drag);
    assert!(frame.is_dragging());
}

#[test]
fn decode_named_and_hex_colors() {
    assert_eq!(decode_color(None), None);
    assert_eq!(decode_color(Some("LIGHT_BLUE")), Some(DecodedColor::Named(NamedColor::LightBlue)));
    assert_eq!(decode_color(Some("#ff8000")), Some(DecodedColor::Rgba(255, 128, 0, 255)));
    assert_eq!(decode_color(Some("0x0102030A")), Some(DecodedColor::Rgba(1, 2, 3, 10)));
    assert_eq!(decode_color(Some("Ab")), Some(DecodedColor::Rgba(0xab, 0, 0, 255)));
    assert_eq!(decode_color(Some("#12345")), None);
    assert_eq!(decode_color(Some("#0102030405")), None);
    assert_eq!(decode_color(Some("#zz")), None);
}

#[test]
fn parameters_validate_and_default() {
    let (key, def) = ParameterDefinition::new(
        "coord_space",
        ParameterDataType::Select(vec!["Object".to_string(), "View".to_string()]),
    );
    assert_eq!(key, "Coord Space");
    assert_eq!(def.default_value(), ParameterValue::Selected("Object".to_string()));
    assert_eq!(def.validate(&ParameterValue::Selected("View".to_string())), Ok(()));
    assert_eq!(
        def.validate(&ParameterValue::Selected("World".to_string())),
        Err(Error::InvalidSelection)
    );
    assert_eq!(def.validate(&ParameterValue::Text("View".to_string())), Err(Error::WrongParameter));
    let (_, scale) = ParameterDefinition::new("scale", ParameterDataType::Value(DataType::F32));
    assert_eq!(scale.validate(&ParameterValue::Value(Value::F32(0))), Ok(()));
    assert_eq!(scale.validate(&ParameterValue::Value(Value::I32(0))), Err(Error::WrongParameter));
    assert_eq!(
        ParameterValue::Selected("A".to_string()).parameter_data_type(),
        ParameterDataType::Select(vec!["A".to_string()])
    );
}

#[test]
fn node_parameters() {
    let mut def = NodeDefinition::new("Swizzle", "node_engine::nodes::swizzle");
    def.add_input("input", DataType::Vec4);
    def.add_parameter("mask", ParameterDataType::Text("xyz".to_string()));
    def.add_parameter("op", ParameterDataType::Select(vec!["Add".to_string(), "Sub".to_string()]));
    let mut node = Node::new(&def);
    assert_eq!(node.get_param("Mask"), Ok(&ParameterValue::Text("xyz".to_string())));
    assert_eq!(node.set_param("Op", ParameterValue::Selected("Sub".to_string())), Ok(()));
    assert_eq!(node.get_param("Op"), Ok(&ParameterValue::Selected("Sub".to_string())));
    assert_eq!(
        node.set_param("Op", ParameterValue::Selected("Mul".to_string())),
        Err(Error::InvalidSelection)
    );
    assert_eq!(node.get_param("Nope"), Err(Error::UnknownParameter));
    let mut mask = SwizzleMask(String::new());
    mask.set_param(ParameterValue::Text("rgbax".to_string())).unwrap();
    assert_eq!(mask.get_param(), ParameterValue::Text("rgba".to_string()));
}

#[test]
fn port_validation() {
    let (_, port) = PortDefinition::new("uv", DataType::Vec2);
    assert_eq!(port.validate(&Input::Value(Value::Vec2([0, 0]))), Ok(()));
    assert_eq!(
        port.validate(&Input::Value(Value::F32(0))),
        Err(Error::WrongLiteralType { expected: DataType::Vec2, got: DataType::F32 })
    );
    assert_eq!(port.validate(&Input::Disconnect), Ok(()));
    assert_eq!(port.default_value(), Value::Vec2([0, 0]));
}

#[test]
fn inputs_are_converted_then_unified() {
    let raws = vec![cv("a", DataType::Vec4), cv("b", DataType::Vec2), cv("7", DataType::F32)];
    let declared = vec![DataType::DynamicVector, DataType::DynamicVector, DataType::F32];
    let connected = vec![true, true, false];
    let out = prepare_inputs(raws, &declared, &connected).unwrap();
    assert_eq!(out[0], cv("vec2<f32>(a.xy)", DataType::Vec2));
    assert_eq!(out[1], cv("b", DataType::Vec2));
    assert_eq!(out[2], cv("7", DataType::F32));
    let bad = prepare_inputs(vec![cv("m", DataType::Mat2)], &vec![DataType::Mat3], &vec![true]);
    assert_eq!(bad, Err(Error::Conversion { from: DataType::Mat2, to: DataType::Mat3 }));
}

#[test]
fn outputs_are_registered_lazily() {
    let mut compile = NodeGraphCompile::new();
    let outs = vec![("p".to_string(), "x".to_string(), DataType::F32)];
    assert_eq!(compile.register_outputs(NodeId(1), &outs), Err(Error::NoCurrentBlock));
    compile.push_new_block("body");
    compile.register_outputs(NodeId(1), &outs).unwrap();
    assert_eq!(compile.dump(), "");
    let b = compile.current_block_id().unwrap();
    let mut block = compile.get_block_by_id(b).unwrap().outputs.clone();
    assert_eq!(block.len(), 1);
    assert_eq!(block.pop().unwrap().0, OutputId::new(NodeId(1), 0));
}
