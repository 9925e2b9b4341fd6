//! Timing metadata of published messages.

use forge_common::observability::PublicationFields as ForgeFields;
use forge_common::observability::{
    parse_metadata, MetadataContainer, MetadataValueRef, Observer, PreparedPublication,
    PublicationError, PublicationMode, SystemClock,
};
use vstd::prelude::*;

use crate::metadata::{Parameter, Parameters};
use crate::text::same_text;

verus! {

/// The key of the version of the timing metadata.
pub const VERSION_KEY: &'static str = "forge_obs_version";

/// The key of the time of publication.
pub const PUBLISH_TIME_KEY: &'static str = "forge_publish_time_ns";

/// The key of the time at which the data came into being.
pub const ORIGIN_TIME_KEY: &'static str = "forge_origin_time_ns";

/// The key of the name of the origin.
pub const ORIGIN_ID_KEY: &'static str = "forge_origin_id";

/// The version of the timing metadata that is written.
pub const OBSERVATION_VERSION: i64 = 1;

/// `forge_common::observability::Observer`, which takes the time and counts
/// publications.
#[verifier::external_type_specification]
#[verifier::external_body]
#[verifier::reject_recursive_types(C)]
pub struct ExObserver<C>(forge_common::observability::Observer<C>);

/// `forge_common::observability::SystemClock`, the clock of the machine.
#[verifier::external_type_specification]
#[verifier::external_body]
pub struct ExSystemClock(forge_common::observability::SystemClock);

/// `forge_common::observability::PreparedPublication`, a publication that has
/// been announced to the observer.
#[verifier::external_type_specification]
#[verifier::external_body]
pub struct ExPreparedPublication(forge_common::observability::PreparedPublication);

/// `forge_common::observability::PublicationError`, why a publication cannot be
/// announced.
#[verifier::external_type_specification]
#[verifier::external_body]
pub struct ExPublicationError(forge_common::observability::PublicationError);

/// Whether the setting turns the timing metadata on: exactly `1` does.
pub fn enabled(value: Option<&str>) -> (r: bool)
    ensures
        r == (value is Some && value->0@ == "1"@),
{
    match value {
        Some(text) => same_text(text, "1"),
        None => false,
    }
}

/// A metadata value as far as timing metadata need it.
#[derive(Debug, Clone, Copy, PartialEq, Eq)]
pub enum MetadataValue<'a> {
    Integer(i64),
    String(&'a str),
    /// A value of another type.
    Other,
}

/// The metadata value of a parameter. A missing parameter is not the same as
/// one of the wrong type.
pub fn parameter_to_metadata_ref(value: Option<&Parameter>) -> (r: Option<MetadataValue<'_>>)
    ensures
        match value {
            None => r is None,
            Some(Parameter::Integer(n)) => r == Some(MetadataValue::Integer(*n)),
            Some(Parameter::String(text)) => r matches Some(MetadataValue::String(s)) && s@
                == text@,
            Some(_) => r == Some(MetadataValue::Other),
        },
{
    match value {
        None => None,
        Some(Parameter::Integer(n)) => Some(MetadataValue::Integer(*n)),
        Some(Parameter::String(text)) => Some(MetadataValue::String(text.as_str())),
        Some(_) => Some(MetadataValue::Other),
    }
}

/// What is to become of the timing metadata of a message.
#[derive(Debug, Clone, PartialEq, Eq)]
pub enum PublicationFields {
    /// They stay as they are.
    PreserveOpaque,
    /// They are removed.
    Clear,
    /// They are replaced by these.
    V1 { publish_time_ns: i64, origin_time_ns: Option<i64>, origin_id: Option<String> },
}

/// The key belongs to the timing metadata.
pub open spec fn is_observation_key(key: Seq<char>) -> bool {
    key == VERSION_KEY@ || key == PUBLISH_TIME_KEY@ || key == ORIGIN_TIME_KEY@ || key
        == ORIGIN_ID_KEY@
}

/// Metadata without timing metadata.
pub open spec fn cleared(m: Map<Seq<char>, Parameter>) -> Map<Seq<char>, Parameter> {
    m.remove(VERSION_KEY@).remove(PUBLISH_TIME_KEY@).remove(ORIGIN_TIME_KEY@).remove(ORIGIN_ID_KEY@)
}

/// Metadata with a value under a key, if there is a value.
pub open spec fn with_optional(
    m: Map<Seq<char>, Parameter>,
    key: Seq<char>,
    value: Option<Parameter>,
) -> Map<Seq<char>, Parameter> {
    match value {
        Some(p) => m.insert(key, p),
        None => m,
    }
}

/// A number as a metadata value.
pub open spec fn integer_value(value: Option<i64>) -> Option<Parameter> {
    match value {
        Some(n) => Some(Parameter::Integer(n)),
        None => None,
    }
}

/// A text as a metadata value.
pub open spec fn text_value(value: Option<String>) -> Option<Parameter> {
    match value {
        Some(s) => Some(Parameter::String(s)),
        None => None,
    }
}

/// Metadata after their timing metadata were treated as asked for.
pub open spec fn with_fields(
    m: Map<Seq<char>, Parameter>,
    fields: PublicationFields,
) -> Map<Seq<char>, Parameter> {
    match fields {
        PublicationFields::PreserveOpaque => m,
        PublicationFields::Clear => cleared(m),
        PublicationFields::V1 { publish_time_ns, origin_time_ns, origin_id } => with_optional(
            with_optional(
                cleared(m).insert(VERSION_KEY@, Parameter::Integer(OBSERVATION_VERSION)).insert(
                    PUBLISH_TIME_KEY@,
                    Parameter::Integer(publish_time_ns),
                ),
                ORIGIN_TIME_KEY@,
                integer_value(origin_time_ns),
            ),
            ORIGIN_ID_KEY@,
            text_value(origin_id),
        ),
    }
}

/// Treats the timing metadata of a message as asked for.
pub fn apply_publication_fields(parameters: &mut Parameters, fields: &PublicationFields)
    requires
        old(parameters).wf(),
    ensures
        final(parameters).wf(),
        final(parameters)@ == with_fields(old(parameters)@, *fields),
{
    if matches!(fields, PublicationFields::PreserveOpaque) {
        return;
    }
    parameters.remove(VERSION_KEY);
    parameters.remove(PUBLISH_TIME_KEY);
    parameters.remove(ORIGIN_TIME_KEY);
    parameters.remove(ORIGIN_ID_KEY);
    if let PublicationFields::V1 { publish_time_ns, origin_time_ns, origin_id } = fields {
        parameters.insert(VERSION_KEY.to_owned(), Parameter::Integer(OBSERVATION_VERSION));
        parameters.insert(PUBLISH_TIME_KEY.to_owned(), Parameter::Integer(*publish_time_ns));
        if let Some(time_ns) = origin_time_ns {
            parameters.insert(ORIGIN_TIME_KEY.to_owned(), Parameter::Integer(*time_ns));
        }
        if let Some(id) = origin_id {
            parameters.insert(ORIGIN_ID_KEY.to_owned(), Parameter::String(id.clone()));
        }
    }
}

/// The metadata claim a version of the timing metadata that is not known.
pub open spec fn claims_unknown_version(m: Map<Seq<char>, Parameter>) -> bool {
    m.contains_key(VERSION_KEY@) && (m[VERSION_KEY@] matches Parameter::Integer(version)
        && version > 0 && version != OBSERVATION_VERSION)
}

/// The fields of a message whose data came into being when it is published:
/// both times are the same, or there are none where no clock tells the time.
pub open spec fn is_new_origin(fields: PublicationFields) -> bool {
    match fields {
        PublicationFields::PreserveOpaque => false,
        PublicationFields::Clear => true,
        PublicationFields::V1 { publish_time_ns, origin_time_ns, origin_id } => {
            &&& publish_time_ns >= 0
            &&& origin_time_ns == Some(publish_time_ns)
            &&& origin_id is None
        },
    }
}

/// The fields with these values.
fn v1(publish_time_ns: i64, origin_time_ns: Option<i64>, origin_id: Option<String>) -> (r:
    PublicationFields)
    ensures
        r == (PublicationFields::V1 { publish_time_ns, origin_time_ns, origin_id }),
{
    PublicationFields::V1 { publish_time_ns, origin_time_ns, origin_id }
}

/// `parse_metadata` on a mapping and `Observer::prepare_publication` with a new
/// origin that has no name: refused exactly where the metadata claim an unknown
/// version. Which of the permitted fields come back, and with which time,
/// depends on the clock. The output's name only labels what the observer
/// counts.
#[verifier::external_body]
fn prepare_new_origin(
    observer: &Observer<SystemClock>,
    output_id: &str,
    parameters: &Parameters,
) -> (r: Result<(PreparedPublication, PublicationFields), PublicationError>)
    requires
        parameters.wf(),
    ensures
        match r {
            Ok((_, fields)) => !claims_unknown_version(parameters@) && is_new_origin(fields),
            Err(_) => claims_unknown_version(parameters@),
        },
{
    let outgoing = parse_metadata(MetadataContainer::Mapping, |key| {
        parameter_to_metadata_ref(parameters.get(key)).map(|value| match value {
            MetadataValue::Integer(n) => MetadataValueRef::Integer(n),
            MetadataValue::String(s) => MetadataValueRef::String(s),
            MetadataValue::Other => MetadataValueRef::Other,
        })
    });
    let mode = PublicationMode::NewOrigin { origin_id: None };
    let prepared = observer.prepare_publication(output_id, mode, Some(&outgoing))?;
    let fields = match prepared.fields() {
        ForgeFields::PreserveOpaque => PublicationFields::PreserveOpaque,
        ForgeFields::Clear => PublicationFields::Clear,
        ForgeFields::V1(v) => v1(v.publish_time_ns(), v.origin_time_ns(), v.origin_id().map(String::from)),
    };
    Ok((prepared, fields))
}

/// `Observer::finish_publication`: counts the publication and hands the result
/// of sending back unchanged.
#[verifier::external_body]
fn finish_publication<T, E>(
    observer: &Observer<SystemClock>,
    prepared: PreparedPublication,
    result: Result<T, E>,
) -> (r: Result<T, E>)
    ensures
        r == result,
{
    observer.finish_publication(prepared, result)
}

/// What may be sent for a message with metadata `m`.
pub open spec fn is_publication_of(
    m: Map<Seq<char>, Parameter>,
    fields: PublicationFields,
    sent: Map<Seq<char>, Parameter>,
) -> bool {
    is_new_origin(fields) && sent == with_fields(cleared(m), fields)
}

/// Announcing a message with these metadata to the observer can yield this: it
/// is an outcome of `prepare_new_origin`.
pub closed spec fn may_prepare(
    observer: &Observer<SystemClock>,
    output_id: &str,
    outgoing: &Parameters,
    prepared: PreparedPublication,
    fields: PublicationFields,
) -> bool {
    call_ensures(
        prepare_new_origin,
        (observer, output_id, outgoing),
        Ok::<(PreparedPublication, PublicationFields), PublicationError>((prepared, fields)),
    )
}

/// Telling the observer how sending ended can yield this: it is an outcome of
/// `finish_publication`.
pub closed spec fn may_finish<T, E>(
    observer: &Observer<SystemClock>,
    prepared: PreparedPublication,
    result: Result<T, E>,
    r: Result<T, E>,
) -> bool {
    call_ensures(finish_publication::<T, E>, (observer, prepared, result), r)
}

/// Sends a message once, with these timing metadata in place of any that it has.
/// The result is that of sending.
pub fn publish_with_fields<T, E, F: FnOnce(Parameters) -> Result<T, E>>(
    fields: &PublicationFields,
    parameters: Parameters,
    send: F,
) -> (r: Result<T, E>)
    requires
        parameters.wf(),
        forall|p: Parameters| p.wf() ==> call_requires(send, (p,)),
    ensures
        exists|sent: Parameters|
            sent.wf() && sent@ == with_fields(cleared(parameters@), *fields) && #[trigger]
                call_ensures(send, (sent,), r),
{
    let mut outgoing: Parameters = parameters;
    apply_publication_fields(&mut outgoing, &PublicationFields::Clear);
    apply_publication_fields(&mut outgoing, fields);
    send(outgoing)
}

/// Publishes a message: sends it once, with timing metadata of its own if there
/// is an observer. The trigger of a frame is never the origin of its image, so
/// timing metadata that came with the trigger are dropped, of whatever version;
/// those that the observer prepares take their place. The observer is told how
/// sending ended, which is the result.
pub fn publish<T, E, F: FnOnce(Parameters) -> Result<T, E>>(
    observer: Option<&Observer<SystemClock>>,
    output_id: &str,
    parameters: Parameters,
    send: F,
) -> (r: Result<T, E>)
    requires
        parameters.wf(),
        forall|p: Parameters| p.wf() ==> call_requires(send, (p,)),
    ensures
        observer is None ==> call_ensures(send, (parameters,), r),
        observer is Some ==> exists|
            outgoing: Parameters,
            prepared: PreparedPublication,
            fields: PublicationFields,
            sent: Parameters,
            result: Result<T, E>,
        |
            #![trigger may_prepare(observer->0, output_id, &outgoing, prepared, fields), call_ensures(send, (sent,), result)]
            {
                &&& outgoing.wf()
                &&& outgoing@ == cleared(parameters@)
                &&& may_prepare(observer->0, output_id, &outgoing, prepared, fields)
                &&& sent.wf()
                &&& is_publication_of(parameters@, fields, sent@)
                &&& call_ensures(send, (sent,), result)
                &&& may_finish(observer->0, prepared, result, r)
                &&& r == result
            },
{
    let observer: &Observer<SystemClock> = match observer {
        Some(observer) => observer,
        None => {
            return send(parameters);
        },
    };
    let ghost given: Map<Seq<char>, Parameter> = parameters@;
    let mut outgoing: Parameters = parameters;
    apply_publication_fields(&mut outgoing, &PublicationFields::Clear);
    proof {
        law_cleared_keys(given, VERSION_KEY@);
        assert(cleared(cleared(given)) =~= cleared(given));
    }
    match prepare_new_origin(observer, output_id, &outgoing) {
        Ok((prepared, fields)) => {
            assert(may_prepare(observer, output_id, &outgoing, prepared, fields));
            let result: Result<T, E> = publish_with_fields(&fields, outgoing, send);
            let ghost sent: Result<T, E> = result;
            let r: Result<T, E> = finish_publication(observer, prepared, result);
            assert(may_finish(observer, prepared, sent, r));
            r
        },
        // Metadata without timing metadata claim no version.
        Err(_) => send(outgoing),
    }
}

proof fn reveal_observation_keys()
    ensures
        VERSION_KEY@ != PUBLISH_TIME_KEY@,
        VERSION_KEY@ != ORIGIN_TIME_KEY@,
        VERSION_KEY@ != ORIGIN_ID_KEY@,
        PUBLISH_TIME_KEY@ != ORIGIN_TIME_KEY@,
        PUBLISH_TIME_KEY@ != ORIGIN_ID_KEY@,
        ORIGIN_TIME_KEY@ != ORIGIN_ID_KEY@,
{
    reveal_strlit("forge_obs_version");
    reveal_strlit("forge_publish_time_ns");
    reveal_strlit("forge_origin_time_ns");
    reveal_strlit("forge_origin_id");
    assert(VERSION_KEY@.len() == 17);
    assert(PUBLISH_TIME_KEY@.len() == 21);
    assert(ORIGIN_TIME_KEY@.len() == 20);
    assert(ORIGIN_ID_KEY@.len() == 15);
}

/// Clearing removes the four keys of the timing metadata and nothing else.
pub proof fn law_cleared_keys(m: Map<Seq<char>, Parameter>, key: Seq<char>)
    ensures
        cleared(m).contains_key(key) == (m.contains_key(key) && !is_observation_key(key)),
        cleared(m).contains_key(key) ==> cleared(m)[key] == m[key],
{
}

/// Whatever is done to the timing metadata, all other metadata stay as they
/// are.
pub proof fn law_other_metadata_are_kept(
    m: Map<Seq<char>, Parameter>,
    fields: PublicationFields,
    key: Seq<char>,
)
    requires
        !is_observation_key(key),
    ensures
        with_fields(m, fields).contains_key(key) == m.contains_key(key),
        m.contains_key(key) ==> with_fields(m, fields)[key] == m[key],
{
}

/// Treating the timing metadata the same way a second time changes nothing.
pub proof fn law_fields_are_idempotent(m: Map<Seq<char>, Parameter>, fields: PublicationFields)
    ensures
        with_fields(with_fields(m, fields), fields) == with_fields(m, fields),
{
    if !(fields is PreserveOpaque) {
        law_fields_replace_fields(m, fields, fields);
    }
}

/// What the timing metadata were before leaves no trace once they are cleared
/// or written anew.
pub proof fn law_fields_replace_fields(
    m: Map<Seq<char>, Parameter>,
    first: PublicationFields,
    second: PublicationFields,
)
    requires
        !(second is PreserveOpaque),
    ensures
        with_fields(with_fields(m, first), second) == with_fields(m, second),
{
    reveal_observation_keys();
    assert(cleared(with_fields(m, first)) =~= cleared(m));
}

/// A published message carries no timing metadata of its trigger: its version
/// is the known one, it has no named origin, and its origin is its publication;
/// or it has no timing metadata at all. Everything else passes through.
pub proof fn law_publication_has_new_origin(
    m: Map<Seq<char>, Parameter>,
    fields: PublicationFields,
    sent: Map<Seq<char>, Parameter>,
)
    requires
        is_publication_of(m, fields, sent),
    ensures
        !claims_unknown_version(sent),
        !sent.contains_key(ORIGIN_ID_KEY@),
        match fields {
            PublicationFields::V1 { publish_time_ns, .. } => {
                &&& sent.contains_key(VERSION_KEY@)
                &&& sent[VERSION_KEY@] == Parameter::Integer(OBSERVATION_VERSION)
                &&& sent.contains_key(PUBLISH_TIME_KEY@)
                &&& sent[PUBLISH_TIME_KEY@] == Parameter::Integer(publish_time_ns)
                &&& sent.contains_key(ORIGIN_TIME_KEY@)
                &&& sent[ORIGIN_TIME_KEY@] == Parameter::Integer(publish_time_ns)
            },
            _ => sent == cleared(m),
        },
        forall|key: Seq<char>|
            !is_observation_key(key) ==> (#[trigger] sent.contains_key(key)) == m.contains_key(key)
                && (m.contains_key(key) ==> sent[key] == m[key]),
{
    reveal_observation_keys();
    assert(cleared(cleared(m)) =~= cleared(m));
}

/// What timing metadata say, name by name: the version is 1, the time of
/// publication is always there, time and name of the origin only if they are
/// given. Without new ones, or if they are only removed, none of the four names is
/// left.
pub proof fn law_timing_metadata(
    m: Map<Seq<char>, Parameter>,
    publish_time_ns: i64,
    origin_time_ns: Option<i64>,
    origin_id: Option<String>,
)
    ensures
        ({
            let sent = with_fields(
                m,
                PublicationFields::V1 { publish_time_ns, origin_time_ns, origin_id },
            );
            let none = with_fields(m, PublicationFields::Clear);
            &&& sent.contains_key("forge_obs_version"@)
            &&& sent["forge_obs_version"@] == Parameter::Integer(1)
            &&& sent.contains_key("forge_publish_time_ns"@)
            &&& sent["forge_publish_time_ns"@] == Parameter::Integer(publish_time_ns)
            &&& sent.contains_key("forge_origin_time_ns"@) <==> origin_time_ns is Some
            &&& origin_time_ns matches Some(t) ==> sent["forge_origin_time_ns"@]
                == Parameter::Integer(t)
            &&& sent.contains_key("forge_origin_id"@) <==> origin_id is Some
            &&& origin_id matches Some(id) ==> sent["forge_origin_id"@] == Parameter::String(id)
            &&& !none.contains_key("forge_obs_version"@)
            &&& !none.contains_key("forge_publish_time_ns"@)
            &&& !none.contains_key("forge_origin_time_ns"@)
            &&& !none.contains_key("forge_origin_id"@)
            &&& with_fields(m, PublicationFields::PreserveOpaque) == m
        }),
{
    reveal_observation_keys();
}

/// All names but those four are left alone.
pub proof fn law_names_of_timing_metadata(
    m: Map<Seq<char>, Parameter>,
    fields: PublicationFields,
    key: Seq<char>,
)
    requires
        key != "forge_obs_version"@,
        key != "forge_publish_time_ns"@,
        key != "forge_origin_time_ns"@,
        key != "forge_origin_id"@,
    ensures
        with_fields(m, fields).contains_key(key) == m.contains_key(key),
        m.contains_key(key) ==> with_fields(m, fields)[key] == m[key],
{
}

/// Timing metadata are asked for by `1` and by nothing else. A metadata value is
/// seen as what it is if it is a whole number or a text, and else as something
/// else; a value that is not there is not seen.
pub proof fn law_what_is_seen_of_metadata(
    setting: Option<&str>,
    on: bool,
    value: Option<&Parameter>,
    seen: Option<MetadataValue<'_>>,
)
    requires
        call_ensures(enabled, (setting,), on),
        call_ensures(parameter_to_metadata_ref, (value,), seen),
    ensures
        on <==> (setting matches Some(text) && text@ == "1"@),
        value is None <==> seen is None,
        value matches Some(Parameter::Integer(n)) ==> seen == Some(MetadataValue::Integer(*n)),
        value matches Some(Parameter::String(text)) ==> (seen matches Some(
            MetadataValue::String(s),
        ) && s@ == text@),
        value matches Some(p) ==> (!(p is Integer) && !(p is String) ==> seen == Some(
            MetadataValue::Other,
        )),
{
}

/// `apply_publication_fields` changes the metadata as the fields say.
pub proof fn law_fields_are_applied(fields: &PublicationFields)
    ensures
        forall|parameters: &mut Parameters| #[trigger]
            call_ensures(apply_publication_fields, (parameters, fields), ())
                ==> final(parameters)@ == with_fields(parameters@, *fields),
{
}

/// What `publish` sends, once, and whose result it returns: without an observer the
/// metadata as they are; with one, metadata that name no origin, that have a time
/// of publication exactly if they have the time of an origin, which is the same,
/// and a version, which is 1; whatever the trigger had under these names. All other
/// metadata are those given.
pub proof fn law_published_metadata<T, E, F: FnOnce(Parameters) -> Result<T, E>>(
    observer: Option<&Observer<SystemClock>>,
    output_id: &str,
    parameters: Parameters,
    send: F,
    r: Result<T, E>,
)
    requires
        call_ensures(publish::<T, E, F>, (observer, output_id, parameters, send), r),
    ensures
        observer is None ==> call_ensures(send, (parameters,), r),
        observer is Some ==> exists|sent: Parameters| #[trigger]
            call_ensures(send, (sent,), r) && {
                let m = sent@;
                &&& !m.contains_key("forge_origin_id"@)
                &&& m.contains_key("forge_publish_time_ns"@) == m.contains_key(
                    "forge_obs_version"@,
                )
                &&& m.contains_key("forge_publish_time_ns"@) == m.contains_key(
                    "forge_origin_time_ns"@,
                )
                &&& m.contains_key("forge_obs_version"@) ==> m["forge_obs_version"@]
                    == Parameter::Integer(1) && m["forge_origin_time_ns"@]
                    == m["forge_publish_time_ns"@]
                &&& forall|key: Seq<char>|
                    key != "forge_obs_version"@ && key != "forge_publish_time_ns"@ && key
                        != "forge_origin_time_ns"@ && key != "forge_origin_id"@ ==> (
                    #[trigger] m.contains_key(key)) == parameters@.contains_key(key) && (
                    m.contains_key(key) ==> m[key] == parameters@[key])
            },
{
    if observer is Some {
        let (outgoing, prepared, fields, sent, result): (
            Parameters,
            PreparedPublication,
            PublicationFields,
            Parameters,
            Result<T, E>,
        ) = choose|
            outgoing: Parameters,
            prepared: PreparedPublication,
            fields: PublicationFields,
            sent: Parameters,
            result: Result<T, E>,
        |
            #![trigger may_prepare(observer->0, output_id, &outgoing, prepared, fields), call_ensures(send, (sent,), result)]
            {
                &&& may_prepare(observer->0, output_id, &outgoing, prepared, fields)
                &&& is_publication_of(parameters@, fields, sent@)
                &&& call_ensures(send, (sent,), result)
                &&& r == result
            };
        reveal_observation_keys();
        law_publication_has_new_origin(parameters@, fields, sent@);
        assert(call_ensures(send, (sent,), r));
    }
}

/// What `publish_with_fields` sends, once, and whose result it returns: the
/// metadata without timing metadata, and then with those given.
pub proof fn law_given_fields_are_sent<T, E, F: FnOnce(Parameters) -> Result<T, E>>(
    fields: &PublicationFields,
    parameters: Parameters,
    send: F,
    r: Result<T, E>,
)
    requires
        call_ensures(publish_with_fields::<T, E, F>, (fields, parameters, send), r),
    ensures
        exists|sent: Parameters| #[trigger]
            call_ensures(send, (sent,), r) && sent@ == with_fields(
                with_fields(parameters@, PublicationFields::Clear),
                *fields,
            ),
{
    assert(with_fields(parameters@, PublicationFields::Clear) == cleared(parameters@));
}

} // verus!
