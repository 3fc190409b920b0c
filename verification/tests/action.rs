//! The action catalog and the resolution of an invocation against it.

use camera_config::model::{
    Action, ActionInitiator, ActionInitiatorParameter, ActionParameter, ActionParameterKind,
    ActionResponder, Mode, ResponderMutation,
};
use camera_config::name_map::NameMap;
use camera_config::{
    ActionArgument, ActionInvocationRequest, ActionResolutionError, ActionRole, ActionVerb,
    CameraIdentity,
    CameraManifest, Connection, SemanticAssertionLedger, SCHEMA_VERSION,
};

fn map<V>(entries: Vec<(&str, V)>) -> NameMap<V> {
    let mut out = NameMap::new();
    for (key, value) in entries {
        out.insert(key.to_string(), value);
    }
    out
}

fn manifest() -> CameraManifest {
    let mut connection = Connection::default();
    connection.actions.insert(
        ActionVerb::Shutter,
        Action {
            mode: "shooting/stills".into(),
            initiator: Some(ActionInitiator {
                params: vec![ActionInitiatorParameter::Shorthand("handle".into())],
                ..Default::default()
            }),
            responder: Some(ActionResponder {
                params: vec![ActionParameter {
                    name: "count".into(),
                    kind: ActionParameterKind::U32,
                    default: Some(1),
                    min: Some(1),
                    max: Some(4),
                }],
                mutation: ResponderMutation::EnqueueObjects { count_param: "count".into() },
            }),
            triggers: Vec::new(),
            evidence: Vec::new(),
        },
    );
    CameraManifest {
        schema: SCHEMA_VERSION.to_string(),
        camera: CameraIdentity {
            manufacturer: "FUJIFILM".into(),
            model: "GFX100 II".into(),
            firmware: "2.30".into(),
            identities: NameMap::new(),
        },
        evidence: NameMap::new(),
        semantic_assertions: SemanticAssertionLedger::default(),
        sentinels: NameMap::new(),
        sequence_gates: NameMap::new(),
        camera_initiated_transfer: None,
        operations: NameMap::new(),
        properties: NameMap::new(),
        workflows: NameMap::new(),
        media: None,
        focus_grid: None,
        events: NameMap::new(),
        quirks: Vec::new(),
        modes: map(vec![("shooting/stills", Mode::default())]),
        connections: map(vec![("app", connection)]),
        values: NameMap::new(),
    }
}

fn request(m: &CameraManifest, role: ActionRole, parameters: &[(&str, u64)]) -> ActionInvocationRequest {
    ActionInvocationRequest {
        catalog_revision: m.action_catalog().revision,
        action_id: m.action_catalog().actions[0].action_id.clone(),
        connection: "app".into(),
        mode: "shooting/stills".into(),
        role,
        parameters: parameters
            .iter()
            .map(|(name, value)| ActionArgument { name: name.to_string(), value: *value })
            .collect(),
    }
}

#[test]
fn the_catalog_lists_every_action_with_its_roles() {
    let catalog = manifest().action_catalog();
    assert_eq!(catalog.actions.len(), 1);
    let entry = &catalog.actions[0];
    assert_eq!(entry.connection, "app");
    assert_eq!(entry.mode, "shooting/stills");
    assert_eq!(entry.supported_roles, vec![ActionRole::Initiator, ActionRole::Responder]);
    assert_eq!(entry.parameters.len(), 2);
    assert_eq!(catalog.revision, manifest().action_catalog().revision);
    let mut other = manifest();
    other.connections.insert("usb".into(), Connection::default());
    assert_eq!(catalog.revision, other.action_catalog().revision);
    let mut without = manifest();
    without.connections.insert("app".into(), Connection::default());
    assert_ne!(catalog.revision, without.action_catalog().revision);
}

#[test]
fn an_invocation_takes_declared_parameters_and_defaults() {
    let m = manifest();
    let resolved =
        m.resolve_action_invocation(&request(&m, ActionRole::Responder, &[])).unwrap();
    assert_eq!(resolved.action, ActionVerb::Shutter);
    assert_eq!(resolved.role, ActionRole::Responder);
    assert_eq!(resolved.parameters.get("count"), Some(&1));
    assert!(resolved.responder_mutation.is_some());
    let given = m
        .resolve_action_invocation(&request(&m, ActionRole::Initiator, &[("handle", 7)]))
        .unwrap();
    assert_eq!(given.parameters.get("handle"), Some(&7));
}

#[test]
fn each_refusal_has_its_code() {
    let m = manifest();
    let refuse = |r: &ActionInvocationRequest| m.resolve_action_invocation(r).unwrap_err();
    let good = || request(&m, ActionRole::Responder, &[]);

    let mut r = good();
    r.catalog_revision = "old".into();
    assert_eq!(refuse(&r), ActionResolutionError::StaleRevision);
    assert_eq!(refuse(&r).code(), "staleCatalogRevision");

    let mut r = good();
    r.connection = "usb".into();
    assert_eq!(refuse(&r), ActionResolutionError::UnknownConnection("usb".into()));
    assert_eq!(refuse(&r).message(), "unknown connection \"usb\"");

    let mut r = good();
    r.action_id = "no-such-action".into();
    assert!(matches!(refuse(&r), ActionResolutionError::UnknownAction { .. }));

    let mut r = good();
    r.mode = "movie".into();
    assert_eq!(
        refuse(&r),
        ActionResolutionError::WrongMode {
            expected: "shooting/stills".into(),
            actual: "movie".into()
        }
    );

    let r = request(&m, ActionRole::Responder, &[("count", 2), ("count", 3)]);
    assert_eq!(refuse(&r), ActionResolutionError::DuplicateParameter("count".into()));

    let r = request(&m, ActionRole::Initiator, &[]);
    assert_eq!(refuse(&r), ActionResolutionError::MissingParameter("handle".into()));

    let r = request(&m, ActionRole::Responder, &[("speed", 2)]);
    assert_eq!(refuse(&r), ActionResolutionError::ExtraParameter("speed".into()));

    let r = request(&m, ActionRole::Responder, &[("count", 5)]);
    assert_eq!(
        refuse(&r),
        ActionResolutionError::InvalidParameter { name: "count".into(), value: 5 }
    );
}

#[test]
fn a_role_that_is_not_declared_is_refused() {
    let mut m = manifest();
    let mut connection = Connection::default();
    connection.actions.insert(
        ActionVerb::Shutter,
        Action {
            mode: "shooting/stills".into(),
            initiator: Some(ActionInitiator::default()),
            ..Default::default()
        },
    );
    m.connections = map(vec![("app", connection)]);
    let r = request(&m, ActionRole::Responder, &[]);
    let refused = m.resolve_action_invocation(&r).unwrap_err();
    assert_eq!(refused, ActionResolutionError::WrongRole(ActionRole::Responder));
}
