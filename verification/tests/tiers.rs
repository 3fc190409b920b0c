//! YAML text, and manifests in tiers of it.

use camera_config::tiers::{merge_tiers, read_yaml};
use camera_config::yaml::{Yaml, YamlNumber};
use camera_config::ManifestError;

fn text(s: &str) -> Yaml {
    Yaml::String(s.into())
}

fn number(n: u64) -> Yaml {
    Yaml::Number(YamlNumber::Unsigned(n))
}

fn member<'a>(y: &'a Yaml, path: &[&str]) -> &'a Yaml {
    let mut at = y;
    for key in path {
        at = match at {
            Yaml::Mapping(entries) => {
                &entries.iter().find(|e| e.0 == text(key)).expect("member").1
            }
            other => panic!("not a mapping: {other:?}"),
        };
    }
    at
}

#[test]
fn every_form_of_a_value_is_read() {
    assert_eq!(read_yaml("~"), Ok(Yaml::Null));
    assert_eq!(read_yaml("true"), Ok(Yaml::Bool(true)));
    assert_eq!(read_yaml("12"), Ok(number(12)));
    assert_eq!(read_yaml("0xd212"), Ok(number(0xd212)));
    assert_eq!(read_yaml("-12"), Ok(Yaml::Number(YamlNumber::Negative(-12))));
    assert_eq!(
        read_yaml("2.50"),
        Ok(Yaml::Number(YamlNumber::Float { text: "2.5".into() }))
    );
    assert_eq!(read_yaml("\"12\""), Ok(text("12")));
    assert_eq!(
        read_yaml("[a, 1]"),
        Ok(Yaml::Sequence(vec![text("a"), number(1)]))
    );
    assert_eq!(
        read_yaml("{ b: 1, a: { c: 2 }, 3: x }"),
        Ok(Yaml::Mapping(vec![
            (text("b"), number(1)),
            (text("a"), Yaml::Mapping(vec![(text("c"), number(2))])),
            (number(3), text("x")),
        ]))
    );
    assert_eq!(
        read_yaml("!event x"),
        Ok(Yaml::Tagged { tag: "!event".into(), value: Box::new(text("x")) })
    );
}

#[test]
fn an_overlay_overrides_only_what_it_names() {
    let body = "
camera: { model: GFX100 II, firmware: '2.30' }
connections:
  xlv: { transport: http, modes: [Shooting, Playback] }
  app: { transport: ptpip }
";
    let delta = "
camera: { firmware: '2.40' }
connections:
  xlv: { transport: https, modes: [Shooting] }
";
    let merged = merge_tiers(body, &[delta]).unwrap();
    assert_eq!(member(&merged, &["camera", "model"]), &text("GFX100 II"));
    assert_eq!(member(&merged, &["camera", "firmware"]), &text("2.40"));
    assert_eq!(member(&merged, &["connections", "xlv", "transport"]), &text("https"));
    assert_eq!(
        member(&merged, &["connections", "xlv", "modes"]),
        &Yaml::Sequence(vec![text("Shooting")])
    );
    assert_eq!(member(&merged, &["connections", "app", "transport"]), &text("ptpip"));
    assert_eq!(merge_tiers(body, &[]).unwrap(), read_yaml(body).unwrap());
}

#[test]
fn the_most_specific_tier_comes_last() {
    let last = merge_tiers("a: 1", &["a: 2", "{ a: 3, b: 4 }", "a: 5"]).unwrap();
    assert_eq!(member(&last, &["a"]), &number(5));
    assert_eq!(member(&last, &["b"]), &number(4));
    let stacked = merge_tiers("a: 1", &["a: 2", "{ a: 3, b: 4 }"]).unwrap();
    assert_eq!(member(&stacked, &["a"]), &number(3));
}

#[test]
fn the_first_text_that_is_no_yaml_ends_the_reading() {
    let broken = "a: [1";
    let message = read_yaml(broken).unwrap_err();
    assert!(!message.is_empty());
    for refused in [
        merge_tiers(broken, &["a: 1"]),
        merge_tiers("a: 1", &[broken]),
        merge_tiers("a: 1", &["a: 2", broken, "b: {"]),
    ] {
        assert_eq!(refused.unwrap_err(), ManifestError::Yaml(message.clone()));
    }
    assert!(merge_tiers("{ a: 1, a: 2 }", &[]).is_err());
}
