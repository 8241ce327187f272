use renderer::mutation::{
    resolve_options, FilterInit, JsMutationObserver, JsMutationRecord, ObserveError, ObserverInit,
    ObserverRegistry, RecordData,
};

fn init() -> ObserverInit {
    ObserverInit {
        child_list: false,
        attributes: None,
        attribute_old_value: None,
        character_data: None,
        character_data_old_value: None,
        subtree: false,
        attribute_filter: FilterInit::Absent,
    }
}

#[test]
fn options_imply_and_conflict() {
    assert_eq!(resolve_options(init()).err(), Some(ObserveError::NothingObserved));

    let implied = resolve_options(ObserverInit { attribute_old_value: Some(true), ..init() })
        .expect("attributes implied");
    assert!(implied.attributes);
    assert!(implied.attribute_old_value);
    assert!(!implied.character_data);

    let filtered = resolve_options(ObserverInit {
        attribute_filter: FilterInit::Sequence(vec!["id".into()]),
        ..init()
    })
    .expect("filter implies attributes");
    assert!(filtered.attributes);
    assert_eq!(filtered.attribute_filter, Some(vec!["id".to_string()]));

    assert_eq!(
        resolve_options(ObserverInit {
            attributes: Some(false),
            attribute_old_value: Some(false),
            child_list: true,
            ..init()
        })
        .err(),
        Some(ObserveError::AttributesConflict)
    );
    assert_eq!(
        resolve_options(ObserverInit {
            character_data: Some(false),
            character_data_old_value: Some(true),
            ..init()
        })
        .err(),
        Some(ObserveError::CharacterDataConflict)
    );
    assert_eq!(
        resolve_options(ObserverInit { attribute_filter: FilterInit::NotSequence, child_list: true, ..init() })
            .err(),
        Some(ObserveError::FilterNotSequence)
    );
    let cd = resolve_options(ObserverInit { character_data_old_value: Some(false), ..init() })
        .expect("characterData implied by a present old-value flag");
    assert!(cd.character_data);
    assert!(!cd.character_data_old_value);
    assert_eq!(
        ObserveError::NothingObserved.message(),
        "options must set childList, attributes, or characterData"
    );
}

#[test]
fn observe_replaces_the_registration_of_a_target() {
    let mut registry = ObserverRegistry::new();
    assert!(!registry.is_recording());
    let observer = JsMutationObserver::new(&mut registry);
    assert_eq!(observer.id, 1);
    let second = JsMutationObserver::new(&mut registry);
    assert_eq!(second.id, 2);
    observer
        .observe(&mut registry, 5, ObserverInit { child_list: true, ..init() })
        .expect("observe");
    assert!(registry.is_recording());
    observer
        .observe(&mut registry, 5, ObserverInit { attributes: Some(true), ..init() })
        .expect("observe again");
    assert_eq!(
        observer.observe(&mut registry, 6, init()),
        Err(ObserveError::NothingObserved)
    );
    observer.disconnect(&mut registry);
    assert!(!registry.is_recording());
    let stray = JsMutationObserver { id: 99 };
    stray.observe(&mut registry, 1, ObserverInit { child_list: true, ..init() }).expect("ignored");
    assert!(!registry.is_recording());
}

#[test]
fn records_expose_their_data() {
    let record = JsMutationRecord {
        record: RecordData {
            typ: "attributes".into(),
            target: 4,
            added: vec![],
            removed: vec![7, 8],
            previous: Some(3),
            next: None,
            attribute_name: Some("id".into()),
            attribute_namespace: None,
            old_value: Some("x".into()),
        },
    };
    assert_eq!(record.record_type(), "attributes");
    assert_eq!(record.target(), 4);
    assert!(record.added_nodes().is_empty());
    assert_eq!(record.removed_nodes(), vec![7, 8]);
    assert_eq!(record.previous_sibling(), Some(3));
    assert_eq!(record.next_sibling(), None);
    assert_eq!(record.attribute_name(), Some("id".to_string()));
    assert_eq!(record.attribute_namespace(), None);
    assert_eq!(record.old_value(), Some("x".to_string()));
}
