use renderer::mtlx::{input_of, mtlx_events, mtlx_plan, mtlx_steps, MtlxInput, MtlxStep, XmlEvent, XmlTag};
use renderer::openpbr::{bool_set, color_parts, is_scalar_type, openpbr_input_target, MtlxError, OpenPbrParam};

#[test]
fn scalar_types() {
    assert!(is_scalar_type("float"));
    assert!(is_scalar_type("color3"));
    assert!(is_scalar_type("boolean"));
    assert!(!is_scalar_type("filename"));
    assert!(!is_scalar_type("vector3"));
    assert!(!is_scalar_type("Float"));
}

#[test]
fn booleans() {
    let mut slot = false;
    assert!(bool_set(&mut slot, " true "));
    assert!(slot);
    assert!(bool_set(&mut slot, "false"));
    assert!(!slot);
    slot = true;
    assert!(!bool_set(&mut slot, "yes"));
    assert!(slot);
    assert!(!bool_set(&mut slot, "TRUE"));
    assert!(slot);
}

#[test]
fn input_targets() {
    assert_eq!(openpbr_input_target("base_weight", "float"), Some(OpenPbrParam::BaseWeight));
    assert_eq!(openpbr_input_target("base_color", "color3"), Some(OpenPbrParam::BaseColor));
    assert_eq!(openpbr_input_target("geometry_thin_walled", "boolean"), Some(OpenPbrParam::GeometryThinWalled));
    assert_eq!(openpbr_input_target("transmission_dispersion_abbe_number", "float"), Some(OpenPbrParam::TransmissionDispersionAbbeNumber));
    assert_eq!(openpbr_input_target("base_color", "float"), None);
    assert_eq!(openpbr_input_target("base_weight", "filename"), None);
    assert_eq!(openpbr_input_target("unknown", "float"), None);
}

#[test]
fn color_components() {
    assert_eq!(color_parts(" 0.8, 0.5 ,1"), Some(vec!["0.8".to_string(), "0.5".to_string(), "1".to_string()]));
    assert_eq!(color_parts("1,2"), None);
    assert_eq!(color_parts("1,2,3,4"), None);
    assert_eq!(color_parts(",,"), Some(vec![String::new(), String::new(), String::new()]));
}

#[test]
fn error_messages() {
    assert_eq!(MtlxError::Xml("bad".to_string()).message(), "malformed .mtlx XML: bad");
    let e = MtlxError::Input { name: "base_weight".to_string(), type_token: "float".to_string(), value: "x".to_string() };
    assert_eq!(e.message(), "unparsable OpenPBR input 'base_weight' ( type 'float', value 'x' )");
}

fn attrs(list: &[(&str, &str)]) -> Vec<Result<(String, String), String>> {
    list.iter().map(|(k, v)| Ok((k.to_string(), v.to_string()))).collect()
}

#[test]
fn input_attributes() {
    let got = input_of(&attrs(&[("name", "a"), ("type", "float"), ("value", "1"), ("name", "b"), ("uiname", "x")])).unwrap();
    assert_eq!(got, MtlxInput { name: "b".to_string(), type_token: "float".to_string(), value: "1".to_string() });
    let mut bad = attrs(&[("name", "a")]);
    bad.push(Err("broken".to_string()));
    bad.push(Ok(("type".to_string(), "float".to_string())));
    assert_eq!(input_of(&bad), Err("broken".to_string()));
    assert_eq!(input_of(&vec![]).unwrap(), MtlxInput { name: String::new(), type_token: String::new(), value: String::new() });
}

fn tag(name: &str, list: &[(&str, &str)]) -> XmlTag {
    XmlTag { name: name.to_string(), attributes: attrs(list) }
}

fn kinds(steps: &[MtlxStep]) -> Vec<String> {
    steps
        .iter()
        .map(|s| match s {
            MtlxStep::Open => "open".to_string(),
            MtlxStep::PushDefault => "default".to_string(),
            MtlxStep::Apply { param, input } => format!("apply {param:?} {}", input.value),
            MtlxStep::Close => "close".to_string(),
            MtlxStep::Fail(e) => format!("fail {}", e.message()),
        })
        .collect()
}

#[test]
fn steps_from_events() {
    let events = vec![
        Ok(XmlEvent::Other),
        Ok(XmlEvent::Empty(tag("input", &[("name", "base_weight"), ("type", "float"), ("value", "0.5")]))),
        Ok(XmlEvent::Start(tag("open_pbr_surface", &[]))),
        Ok(XmlEvent::Empty(tag("input", &[("name", "base_weight"), ("type", "float"), ("value", " 0.25 ")]))),
        Ok(XmlEvent::Empty(tag("input", &[("name", "base_color"), ("type", "color3"), ("nodename", "tex")]))),
        Ok(XmlEvent::Empty(tag("input", &[("name", "geometry_normal"), ("type", "vector3"), ("value", "0,0,1")]))),
        Ok(XmlEvent::End("open_pbr_surface".to_string())),
        Ok(XmlEvent::Empty(tag("open_pbr_surface", &[]))),
        Ok(XmlEvent::End("open_pbr_surface".to_string())),
        Ok(XmlEvent::Eof),
        Ok(XmlEvent::Start(tag("open_pbr_surface", &[]))),
    ];
    assert_eq!(
        kinds(&mtlx_steps(&events)),
        vec!["open", "apply BaseWeight 0.25", "close", "default"]
    );
}

#[test]
fn steps_stop_at_the_first_failure() {
    let events = vec![
        Ok(XmlEvent::Start(tag("open_pbr_surface", &[]))),
        Ok(XmlEvent::Empty(tag("input", &[("name", "bogus"), ("type", "float"), ("value", "1")]))),
        Ok(XmlEvent::Empty(tag("input", &[("name", "base_weight"), ("type", "float"), ("value", "1")]))),
    ];
    assert_eq!(
        kinds(&mtlx_steps(&events)),
        vec!["open", "fail unparsable OpenPBR input 'bogus' ( type 'float', value '1' )"]
    );
    let events = vec![Ok(XmlEvent::Start(tag("open_pbr_surface", &[]))), Err("eof in tag".to_string())];
    assert_eq!(kinds(&mtlx_steps(&events)), vec!["open", "fail malformed .mtlx XML: eof in tag"]);
}

#[test]
fn plan_of_a_document() {
    let xml = r#"<?xml version="1.0"?>
<materialx version="1.39">
  <open_pbr_surface name="gold" type="surfaceshader">
    <input name="base_metalness" type="float" value="1.0"/>
    <input name="base_color" type="color3" value="1.0, 0.77, 0.33"/>
    <input name="geometry_thin_walled" type="boolean" value="false"/>
    <input name="coat_color" type="color3" nodename="coat_tex"/>
  </open_pbr_surface>
  <open_pbr_surface name="plain" type="surfaceshader"/>
</materialx>
"#;
    assert_eq!(
        kinds(&mtlx_plan(xml)),
        vec![
            "open",
            "apply BaseMetalness 1.0",
            "apply BaseColor 1.0, 0.77, 0.33",
            "apply GeometryThinWalled false",
            "close",
            "default",
        ]
    );
    let events = mtlx_events(xml);
    assert!(matches!(events.last(), Some(Ok(XmlEvent::Eof))));
}

#[test]
fn plan_of_malformed_xml_fails() {
    let steps = mtlx_plan("<materialx><open_pbr_surface></materialx>");
    assert!(matches!(steps.last(), Some(MtlxStep::Fail(MtlxError::Xml(_)))));
}
