use std::sync::Arc;

use forge_common::metrics::{BoundedMetricsSink, EventReason, MetricsConfig};
use forge_common::observability::{
    parse_metadata, Clock, MetadataContainer, MetadataIssue, MetadataValueRef, Observer, OriginId,
    PreparedPublication, PublicationMode, OBSERVATION_KEYS,
};
use usb_camera::metadata::{output_parameters, Parameter, Parameters, CAPTURE_TIMESTAMP_KEY};
use usb_camera::observability::{
    apply_publication_fields, enabled, parameter_to_metadata_ref, publish, publish_with_fields,
    MetadataValue, PublicationFields, OBSERVATION_VERSION, ORIGIN_ID_KEY, ORIGIN_TIME_KEY, PUBLISH_TIME_KEY,
    VERSION_KEY,
};

struct FixedClock(Option<i64>);

impl Clock for FixedClock {
    fn unix_time_ns(&self) -> Option<i64> {
        self.0
    }

    fn monotonic_time_ns(&self) -> Option<u64> {
        Some(100)
    }
}

fn parameters(entries: Vec<(&str, Parameter)>) -> Parameters {
    let mut parameters = Parameters::new();
    for (key, value) in entries {
        parameters.insert(key.to_string(), value);
    }
    parameters
}

fn tick_parameters(version: i64) -> Parameters {
    parameters(vec![
        (VERSION_KEY, Parameter::Integer(version)),
        (PUBLISH_TIME_KEY, Parameter::Integer(10)),
        (ORIGIN_TIME_KEY, Parameter::Integer(5)),
        (ORIGIN_ID_KEY, Parameter::String("tick-origin".into())),
        (CAPTURE_TIMESTAMP_KEY, Parameter::Integer(1)),
        ("request_id", Parameter::String("request-1".into())),
    ])
}

fn sorted(parameters: Parameters) -> Vec<(String, Parameter)> {
    let mut entries = parameters.into_entries();
    entries.sort_by(|a, b| a.0.cmp(&b.0));
    entries
}

fn metadata_ref<'a>(parameters: &'a Parameters, key: &str) -> Option<MetadataValueRef<'a>> {
    parameter_to_metadata_ref(parameters.get(key)).map(|value| match value {
        MetadataValue::Integer(n) => MetadataValueRef::Integer(n),
        MetadataValue::String(s) => MetadataValueRef::String(s),
        MetadataValue::Other => MetadataValueRef::Other,
    })
}

fn library_fields(fields: &forge_common::observability::PublicationFields) -> PublicationFields {
    match fields {
        forge_common::observability::PublicationFields::PreserveOpaque => {
            PublicationFields::PreserveOpaque
        }
        forge_common::observability::PublicationFields::Clear => PublicationFields::Clear,
        forge_common::observability::PublicationFields::V1(v) => PublicationFields::V1 {
            publish_time_ns: v.publish_time_ns(),
            origin_time_ns: v.origin_time_ns(),
            origin_id: v.origin_id().map(String::from),
        },
    }
}

/// What an observer prepares for a message without timing metadata of its own.
fn prepare(
    observer: &Observer<FixedClock>,
    parameters: &Parameters,
) -> (PreparedPublication, PublicationFields) {
    let mut cleared = parameters.clone();
    apply_publication_fields(&mut cleared, &PublicationFields::Clear);
    let outgoing = parse_metadata(MetadataContainer::Mapping, |key| metadata_ref(&cleared, key));
    let prepared = observer
        .prepare_publication(
            "image",
            PublicationMode::NewOrigin { origin_id: None },
            Some(&outgoing),
        )
        .unwrap();
    let fields = library_fields(prepared.fields());
    (prepared, fields)
}

#[test]
fn output_parameters_preserve_trigger_values_and_use_frame_timestamp() {
    let mut trigger = Parameters::new();
    trigger.insert(
        "request_id".to_string(),
        Parameter::String("request-1".to_string()),
    );
    trigger.insert(CAPTURE_TIMESTAMP_KEY.to_string(), Parameter::Integer(1));

    let output = output_parameters(trigger, Some(1_234_567_890));

    assert_eq!(
        output.get("request_id"),
        Some(&Parameter::String("request-1".to_string()))
    );
    assert_eq!(
        output.get(CAPTURE_TIMESTAMP_KEY),
        Some(&Parameter::Integer(1_234_567_890))
    );
}

#[test]
fn output_parameters_remove_untrusted_trigger_timestamp_when_frame_has_none() {
    let mut trigger = Parameters::new();
    trigger.insert(CAPTURE_TIMESTAMP_KEY.to_string(), Parameter::Integer(1));

    let output = output_parameters(trigger, None);

    assert!(!output.contains_key(CAPTURE_TIMESTAMP_KEY));
}

#[test]
fn parameters_keep_one_value_per_name() {
    let mut values = Parameters::new();
    assert_eq!(values.len(), 0);
    values.insert("a".to_string(), Parameter::Integer(1));
    values.insert("b".to_string(), Parameter::Bool(true));
    values.insert("a".to_string(), Parameter::Integer(2));
    assert_eq!(values.len(), 2);
    assert_eq!(values.get("a"), Some(&Parameter::Integer(2)));
    values.remove("c");
    values.remove("a");
    assert!(values.get("a").is_none());
    assert_eq!(
        values.into_entries(),
        [("b".to_string(), Parameter::Bool(true))]
    );
}

#[test]
fn keys_and_version_are_those_of_the_observer() {
    assert_eq!(
        [VERSION_KEY, PUBLISH_TIME_KEY, ORIGIN_TIME_KEY, ORIGIN_ID_KEY],
        OBSERVATION_KEYS
    );
    assert_eq!(
        OBSERVATION_VERSION,
        forge_common::observability::OBSERVATION_VERSION
    );
}

#[test]
fn only_exact_one_enables_observability() {
    assert!(!enabled(None));
    for value in ["", "0", "true", "yes", "01", " 1", "1 "] {
        assert!(!enabled(Some(value)));
    }
    assert!(enabled(Some("1")));
}

#[test]
fn typed_parameters_distinguish_missing_and_wrong_types() {
    assert_eq!(parameter_to_metadata_ref(None), None);
    assert_eq!(
        parameter_to_metadata_ref(Some(&Parameter::Integer(123))),
        Some(MetadataValue::Integer(123))
    );
    assert_eq!(
        parameter_to_metadata_ref(Some(&Parameter::String("123".into()))),
        Some(MetadataValue::String("123"))
    );
    for value in [
        Parameter::Bool(true),
        Parameter::Float(1.0f64.to_bits()),
        Parameter::ListInt(vec![1]),
        Parameter::ListFloat(vec![1.0f64.to_bits()]),
        Parameter::ListString(vec!["1".into()]),
    ] {
        assert_eq!(
            parameter_to_metadata_ref(Some(&value)),
            Some(MetadataValue::Other)
        );
    }
    for value in [Parameter::String("1".into()), Parameter::Bool(true)] {
        let parameters = parameters(vec![(VERSION_KEY, value)]);
        let parsed =
            parse_metadata(MetadataContainer::Mapping, |key| metadata_ref(&parameters, key));
        assert!(parsed.issues().contains(&MetadataIssue::InvalidVersion));
    }
}

#[test]
fn disabled_publication_preserves_existing_metadata_and_sends_once() {
    let parameters = output_parameters(tick_parameters(99), Some(42));
    let expected = sorted(parameters.clone());
    let mut sends = 0;
    let result = publish::<_, (), _>(None, "image", parameters, |actual| {
        sends += 1;
        assert_eq!(sorted(actual), expected);
        Ok(7)
    });
    assert_eq!(result.unwrap(), 7);
    assert_eq!(sends, 1);
}

#[test]
fn camera_clears_stale_and_unknown_tick_origins_before_new_origin() {
    let observer = Observer::with_clock(FixedClock(Some(100)), None);
    for version in [1, 99] {
        let parameters = output_parameters(tick_parameters(version), Some(42));
        let (prepared, fields) = prepare(&observer, &parameters);
        let mut sends = 0;
        let result = publish_with_fields(&fields, parameters, |actual| {
            sends += 1;
            assert_eq!(actual.get(VERSION_KEY), Some(&Parameter::Integer(1)));
            assert_eq!(actual.get(PUBLISH_TIME_KEY), Some(&Parameter::Integer(100)));
            assert_eq!(actual.get(ORIGIN_TIME_KEY), Some(&Parameter::Integer(100)));
            assert!(!actual.contains_key(ORIGIN_ID_KEY));
            assert_eq!(
                actual.get(CAPTURE_TIMESTAMP_KEY),
                Some(&Parameter::Integer(42))
            );
            assert_eq!(
                actual.get("request_id"),
                Some(&Parameter::String("request-1".into()))
            );
            let parsed =
                parse_metadata(MetadataContainer::Mapping, |key| metadata_ref(&actual, key));
            assert!(parsed.issues().is_empty());
            Ok::<_, ()>(())
        });
        observer.finish_publication(prepared, result).unwrap();
        assert_eq!(sends, 1);
    }
}

#[test]
fn machine_clock_gives_each_publication_its_own_origin() {
    let observer = Observer::new(None);
    for version in [1, 99] {
        let parameters = output_parameters(tick_parameters(version), Some(42));
        let sent = publish::<_, (), _>(Some(&observer), "image", parameters, Ok).unwrap();
        assert_eq!(sent.get(VERSION_KEY), Some(&Parameter::Integer(1)));
        let time = sent.get(PUBLISH_TIME_KEY).cloned();
        assert!(matches!(time, Some(Parameter::Integer(t)) if t > 10));
        assert_eq!(sent.get(ORIGIN_TIME_KEY).cloned(), time);
        assert!(!sent.contains_key(ORIGIN_ID_KEY));
        assert_eq!(sent.get(CAPTURE_TIMESTAMP_KEY), Some(&Parameter::Integer(42)));
        assert_eq!(
            sent.get("request_id"),
            Some(&Parameter::String("request-1".into()))
        );
        assert_eq!(sent.len(), 5);
    }
}

#[test]
fn unavailable_clock_clears_observability_without_blocking_send() {
    let observer = Observer::with_clock(FixedClock(None), None);
    let parameters = output_parameters(tick_parameters(99), None);
    let (prepared, fields) = prepare(&observer, &parameters);
    let mut sends = 0;
    let result = publish_with_fields(&fields, parameters, |actual| {
        sends += 1;
        assert!(OBSERVATION_KEYS
            .iter()
            .all(|key| !actual.contains_key(*key)));
        assert!(!actual.contains_key(CAPTURE_TIMESTAMP_KEY));
        assert_eq!(actual.len(), 1);
        assert!(actual.contains_key("request_id"));
        Ok::<_, ()>(())
    });
    observer.finish_publication(prepared, result).unwrap();
    assert_eq!(sends, 1);
}

#[test]
fn field_adapter_handles_opaque_clear_and_optional_v1_fields() {
    let mut parameters = tick_parameters(99);
    let original = sorted(parameters.clone());
    apply_publication_fields(&mut parameters, &PublicationFields::PreserveOpaque);
    assert_eq!(sorted(parameters.clone()), original);

    apply_publication_fields(&mut parameters, &PublicationFields::Clear);
    assert_eq!(parameters.len(), 2);
    assert!(parameters.contains_key(CAPTURE_TIMESTAMP_KEY));
    assert!(parameters.contains_key("request_id"));

    let observer = Observer::with_clock(FixedClock(Some(100)), None);
    let origin_id = OriginId::new("camera-origin").unwrap();
    let prepared = observer
        .prepare_publication(
            "image",
            PublicationMode::NewOrigin {
                origin_id: Some(&origin_id),
            },
            None,
        )
        .unwrap();
    apply_publication_fields(&mut parameters, &library_fields(prepared.fields()));
    assert_eq!(
        parameters.get(ORIGIN_ID_KEY),
        Some(&Parameter::String("camera-origin".into()))
    );
    observer
        .finish_publication(prepared, Ok::<_, ()>(()))
        .unwrap();

    let prepared = observer
        .prepare_publication("image", PublicationMode::Unlinked, None)
        .unwrap();
    apply_publication_fields(&mut parameters, &library_fields(prepared.fields()));
    assert_eq!(parameters.get(VERSION_KEY), Some(&Parameter::Integer(1)));
    assert_eq!(
        parameters.get(PUBLISH_TIME_KEY),
        Some(&Parameter::Integer(100))
    );
    assert!(!parameters.contains_key(ORIGIN_TIME_KEY));
    assert!(!parameters.contains_key(ORIGIN_ID_KEY));
    assert_eq!(
        parameters.get(CAPTURE_TIMESTAMP_KEY),
        Some(&Parameter::Integer(1))
    );
    observer
        .finish_publication(prepared, Ok::<_, ()>(()))
        .unwrap();
}

#[test]
fn treating_fields_twice_changes_nothing() {
    for fields in [
        PublicationFields::PreserveOpaque,
        PublicationFields::Clear,
        PublicationFields::V1 {
            publish_time_ns: 9,
            origin_time_ns: Some(8),
            origin_id: Some("id".to_string()),
        },
    ] {
        let mut once = tick_parameters(7);
        apply_publication_fields(&mut once, &fields);
        let mut twice = once.clone();
        apply_publication_fields(&mut twice, &fields);
        assert_eq!(sorted(once), sorted(twice));
    }
}

#[test]
fn publication_finishes_success_and_failure_without_retry_or_error_replacement() {
    let sink = Arc::new(BoundedMetricsSink::new(MetricsConfig::default()).unwrap());
    let observer = Observer::new(Some(Arc::clone(&sink)));
    let mut sends = 0;
    publish(Some(&observer), "image", Parameters::new(), |_| {
        sends += 1;
        Ok::<_, ()>(())
    })
    .unwrap();
    let error = Arc::new("transport failed".to_string());
    let original = Arc::clone(&error);
    let returned = publish(Some(&observer), "image", Parameters::new(), |_| {
        sends += 1;
        Err::<(), _>(error)
    })
    .unwrap_err();
    assert!(Arc::ptr_eq(&returned, &original));
    assert_eq!(sends, 2);
    let snapshot = sink.snapshot();
    assert!(snapshot.histograms.is_empty());
    assert_eq!(snapshot.counters.len(), 2);
    for reason in [EventReason::Published, EventReason::PublishFailed] {
        let counter = snapshot
            .counters
            .iter()
            .find(|value| value.reason == reason)
            .unwrap();
        assert_eq!(counter.count, 1);
        assert_eq!(counter.output_id.as_ref(), "image");
        assert_eq!(counter.input_id.as_ref(), "");
    }
}
