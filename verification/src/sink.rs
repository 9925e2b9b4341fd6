//! A node that receives image messages and reports what they hold.

use vstd::prelude::*;

use crate::batch::{
    batch_rows, compressed_from_batch, compressed_in, decoded_size, image_in, picture_size,
    read_image, ColumnValue, CompressedImageFields, ImageFields, MessageBatch,
};
use crate::buffer::as_slice;
use crate::codec::decoded_rgb8;
use crate::node::NodeEvent;
use crate::text::{decimal, push_decimal, same_text};

verus! {

/// The configuration of the receiving node.
#[derive(Debug, Clone, PartialEq, Eq)]
pub struct SinkConfig {
    /// The input that carries image messages.
    pub input_id: String,
    /// Every how many messages one is reported.
    pub log_every: u64,
}

/// The input that is used unless another one is configured.
pub fn default_input_id() -> (r: String)
    ensures
        r@ == "image"@,
{
    "image".to_owned()
}

/// Every how many messages one is reported unless configured otherwise.
pub fn default_log_every() -> (r: u64)
    ensures
        r == 30,
{
    30
}

/// Milliseconds since the Unix epoch; zero for a clock that stands before it.
pub fn receive_time_ms(elapsed_ms: Option<u128>) -> (r: u128)
    ensures
        r == (match elapsed_ms {
            Some(ms) => ms,
            None => 0,
        }),
{
    match elapsed_ms {
        Some(ms) => ms,
        None => 0,
    }
}

/// The message is reported: the first one is, and each whose number is a
/// multiple of `log_every`, where zero stands for one.
pub open spec fn is_reported(count: int, log_every: int) -> bool {
    count == 1 || count % (if log_every > 0 {
        log_every
    } else {
        1
    }) == 0
}

/// Whether message number `count` is reported, see `is_reported`.
pub fn should_log(count: u64, log_every: u64) -> (r: bool)
    ensures
        r == is_reported(count as int, log_every as int),
{
    let every: u64 = if log_every > 0 {
        log_every
    } else {
        1
    };
    count == 1 || count % every == 0
}

/// Reports come at most `log_every` messages apart.
pub proof fn law_reports_come_regularly(from: int, log_every: int)
    requires
        from >= 0,
        log_every > 0,
    ensures
        exists|count: int|
            from < count <= from + log_every && #[trigger] is_reported(count, log_every),
{
    let count: int = from + log_every - from % log_every;
    assert(count % log_every == 0) by {
        vstd::arithmetic::div_mod::lemma_fundamental_div_mod(from, log_every);
        let q: int = from / log_every;
        assert(count == (q + 1) * log_every) by (nonlinear_arith)
            requires
                from == log_every * q + from % log_every,
                count == from + log_every - from % log_every,
        ;
        vstd::arithmetic::div_mod::lemma_mod_multiples_basic(q + 1, log_every);
    }
    assert(is_reported(count, log_every));
}

/// What the receiving node does about an event.
#[derive(Debug, Clone, PartialEq, Eq)]
pub enum SinkAction {
    Wait,
    /// Report the message that came as number `count`.
    Report { count: u64 },
    Exit,
    Fail(String),
}

/// Decides what an event asks for, and counts the messages.
pub fn on_sink_event(count: &mut u64, event: NodeEvent, config: &SinkConfig) -> (r: SinkAction)
    requires
        *old(count) < u64::MAX,
    ensures
        match event {
            NodeEvent::Input(id) => if id@ == config.input_id@ {
                &&& *final(count) == *old(count) + 1
                &&& r == (if is_reported(*final(count) as int, config.log_every as int) {
                    SinkAction::Report { count: *final(count) }
                } else {
                    SinkAction::Wait
                })
            } else {
                *final(count) == *old(count) && r == SinkAction::Wait
            },
            NodeEvent::Stop => *final(count) == *old(count) && r == SinkAction::Exit,
            NodeEvent::Closed => *final(count) == *old(count) && r == SinkAction::Exit,
            NodeEvent::Other => *final(count) == *old(count) && r == SinkAction::Wait,
            NodeEvent::Error(message) => {
                &&& *final(count) == *old(count)
                &&& r matches SinkAction::Fail(text) && text@ == "Dora error: "@ + message@
            },
        },
{
    match event {
        NodeEvent::Input(id) => if same_text(id.as_str(), config.input_id.as_str()) {
            *count = *count + 1;
            if should_log(*count, config.log_every) {
                SinkAction::Report { count: *count }
            } else {
                SinkAction::Wait
            }
        } else {
            SinkAction::Wait
        },
        NodeEvent::Stop => SinkAction::Exit,
        NodeEvent::Closed => SinkAction::Exit,
        NodeEvent::Other => SinkAction::Wait,
        NodeEvent::Error(message) => {
            let mut text: String = "Dora error: ".to_owned();
            text.append(message.as_str());
            SinkAction::Fail(text)
        },
    }
}

/// Why a message could not be described.
#[derive(Debug, Clone, PartialEq, Eq)]
pub enum SinkError {
    /// The data are not a batch.
    NotStruct,
    /// The batch holds neither kind of message, with the reason.
    NotImage(String),
    /// The compressed image cannot be decoded, with its format and the reason.
    Undecodable { format: String, reason: String },
}

/// The text that reports a sink error.
pub open spec fn sink_error_text(e: SinkError) -> Seq<char> {
    match e {
        SinkError::NotStruct => "input is not an Arrow StructArray"@,
        SinkError::NotImage(reason) => not_image_text(reason@),
        SinkError::Undecodable { format, reason } => undecodable_text(format@, reason@),
    }
}

/// The text that reports a batch without a message.
pub open spec fn not_image_text(reason: Seq<char>) -> Seq<char> {
    "not Image or CompressedImage: "@ + reason
}

/// The text that reports an image that cannot be decoded.
pub open spec fn undecodable_text(format: Seq<char>, reason: Seq<char>) -> Seq<char> {
    "failed to decode "@ + format + " image: "@ + reason
}

impl SinkError {
    /// The text that reports this error.
    pub fn message(&self) -> (r: String)
        ensures
            r@ == sink_error_text(*self),
    {
        match self {
            SinkError::NotStruct => "input is not an Arrow StructArray".to_owned(),
            SinkError::NotImage(reason) => {
                let mut out: String = "not Image or CompressedImage: ".to_owned();
                out.append(reason.as_str());
                out
            },
            SinkError::Undecodable { format, reason } => {
                let mut out: String = "failed to decode ".to_owned();
                out.append(format.as_str());
                out.append(" image: ");
                out.append(reason.as_str());
                out
            },
        }
    }
}

/// The description of a message.
pub open spec fn description(
    kind: Seq<char>,
    encoding: Seq<char>,
    width: nat,
    height: nat,
    bytes: nat,
) -> Seq<char> {
    "message="@ + kind + " encoding="@ + encoding + " width="@ + decimal(width) + " height="@
        + decimal(height) + " bytes="@ + decimal(bytes)
}

fn describe(kind: &str, encoding: &str, width: usize, height: usize, bytes: usize) -> (r: String)
    ensures
        r@ == description(kind@, encoding@, width as nat, height as nat, bytes as nat),
{
    let mut out: String = "message=".to_owned();
    out.append(kind);
    out.append(" encoding=");
    out.append(encoding);
    out.append(" width=");
    push_decimal(&mut out, width as u128);
    out.append(" height=");
    push_decimal(&mut out, height as u128);
    out.append(" bytes=");
    push_decimal(&mut out, bytes as u128);
    out
}

/// The description of the message in a batch with these rows, or the text of
/// the error. An image is looked for first.
pub open spec fn batch_description(rows: Seq<Map<Seq<char>, ColumnValue>>) -> Result<
    Seq<char>,
    Seq<char>,
> {
    match image_in(rows) {
        Some(image) => Ok(
            description(
                "Image"@,
                image.encoding,
                image.width as nat,
                image.height as nat,
                image.data.len(),
            ),
        ),
        None => match compressed_in(rows) {
            Err(reason) => Err(not_image_text(reason)),
            Ok(file) => match picture_size(file.data) {
                Err(reason) => Err(undecodable_text(file.format, reason)),
                Ok((height, width)) => Ok(
                    description("CompressedImage"@, file.format, width, height, file.data.len()),
                ),
            },
        },
    }
}

/// Describes the message in a batch; data that are not a batch are refused.
pub fn decode_and_describe(batch: Option<&MessageBatch>) -> (r: Result<String, SinkError>)
    ensures
        match batch {
            None => r == Err::<String, SinkError>(SinkError::NotStruct),
            Some(b) => match r {
                Ok(text) => batch_description(batch_rows(*b)) == Ok::<Seq<char>, Seq<char>>(text@),
                Err(e) => {
                    &&& batch_description(batch_rows(*b)) == Err::<Seq<char>, Seq<char>>(
                        sink_error_text(e),
                    )
                    &&& e is NotImage || e is Undecodable
                },
            },
        },
{
    let batch: &MessageBatch = match batch {
        Some(batch) => batch,
        None => {
            return Err(SinkError::NotStruct);
        },
    };
    if let Some(image) = read_image(batch) {
        let bytes: usize = as_slice(&image.data).len();
        return Ok(
            describe(
                "Image",
                image.encoding.as_str(),
                image.width as usize,
                image.height as usize,
                bytes,
            ),
        );
    }
    match compressed_from_batch(batch) {
        Err(reason) => Err(SinkError::NotImage(reason)),
        Ok(file) => match decoded_size(&file) {
            Err(reason) => Err(SinkError::Undecodable { format: file.format, reason }),
            Ok((height, width)) => {
                let bytes: usize = as_slice(&file.data).len();
                Ok(describe("CompressedImage", file.format.as_str(), width, height, bytes))
            },
        },
    }
}

/// The line that reports a message.
pub open spec fn report_text(count: nat, received_at_ms: nat, what: Seq<char>) -> Seq<char> {
    "count="@ + decimal(count) + " received_at_unix_ms="@ + decimal(received_at_ms) + " "@ + what
}

/// The line that reports a message: its number, the time at which it was
/// received, and its description or why there is none.
pub fn report_line(count: u64, received_at_ms: u128, described: &Result<String, SinkError>) -> (r:
    String)
    ensures
        r@ == report_text(
            count as nat,
            received_at_ms as nat,
            match *described {
                Ok(text) => text@,
                Err(e) => "decode_error="@ + sink_error_text(e),
            },
        ),
{
    let mut out: String = "count=".to_owned();
    push_decimal(&mut out, count as u128);
    out.append(" received_at_unix_ms=");
    push_decimal(&mut out, received_at_ms);
    out.append(" ");
    let ghost head: Seq<char> = out@;
    match described {
        Ok(text) => {
            out.append(text.as_str());
        },
        Err(e) => {
            out.append("decode_error=");
            out.append(e.message().as_str());
            assert(out@ =~= head + ("decode_error="@ + sink_error_text(*e)));
        },
    }
    out
}

/// An image message is described by its own fields, whatever its pixels.
pub proof fn law_image_is_described(m: ImageFields)
    requires
        m.is_valid(),
    ensures
        batch_description(seq![m.row()]) == Ok::<Seq<char>, Seq<char>>(
            description(
                "Image"@,
                m.encoding,
                m.width as nat,
                m.height as nat,
                m.data.len(),
            ),
        ),
{
    crate::batch::law_image_row_round_trip(m);
}

/// A compressed image message is described by its format and the size of the
/// picture in it.
pub proof fn law_compressed_image_is_described(m: CompressedImageFields)
    requires
        m.format.len() > 0,
        picture_size(m.data) is Ok,
    ensures
        batch_description(seq![m.row()]) == Ok::<Seq<char>, Seq<char>>(
            description(
                "CompressedImage"@,
                m.format,
                picture_size(m.data)->Ok_0.1,
                picture_size(m.data)->Ok_0.0,
                m.data.len(),
            ),
        ),
{
    crate::batch::law_compressed_row_round_trip(m);
}

/// The first message is reported, and every one whose number is a multiple of
/// what is configured; zero means every message.
pub proof fn law_reported_messages(count: u64, log_every: u64, r: bool, k: int)
    requires
        call_ensures(should_log, (count, log_every), r),
    ensures
        count == 1 || log_every <= 1 ==> r,
        log_every > 0 && count == k * log_every ==> r,
        count > 1 && log_every > 0 && k * log_every < count < (k + 1) * log_every ==> !r,
{
    let every = log_every as int;
    if every > 0 {
        if count == k * every {
            vstd::arithmetic::div_mod::lemma_mod_multiples_basic(k, every);
        }
        if k * every < count < (k + 1) * every {
            assert((k + 1) * every == k * every + every) by (nonlinear_arith);
            vstd::arithmetic::div_mod::lemma_fundamental_div_mod_converse(
                count as int,
                every,
                k,
                count - k * every,
            );
        }
    }
}

/// What a message is described by: its kind, its encoding or format, its width
/// and height, and the number of its bytes.
pub proof fn law_description(
    kind: Seq<char>,
    encoding: Seq<char>,
    width: nat,
    height: nat,
    bytes: nat,
)
    ensures
        description(kind, encoding, width, height, bytes) == "message="@ + kind + " encoding="@
            + encoding + " width="@ + decimal(width) + " height="@ + decimal(height) + " bytes="@
            + decimal(bytes),
{
}

/// A batch without an image or a compressed image is described by no text, but by
/// what it lacks as a compressed image; one that cannot be decoded, by its format
/// and the decoder's reason.
pub proof fn law_what_cannot_be_described(rows: Seq<Map<Seq<char>, ColumnValue>>)
    requires
        image_in(rows) is None,
    ensures
        compressed_in(rows) matches Err(reason) ==> batch_description(rows) == Err::<
            Seq<char>,
            Seq<char>,
        >("not Image or CompressedImage: "@ + reason),
        compressed_in(rows) matches Ok(file) ==> match decoded_rgb8(file.data) {
            Ok((width, height, _)) => file.data.len() > 0 && width > 0 && height > 0 && width
                * height * 3 <= isize::MAX ==> batch_description(rows) == Ok::<
                Seq<char>,
                Seq<char>,
            >(
                description(
                    "CompressedImage"@,
                    file.format,
                    width as nat,
                    height as nat,
                    file.data.len(),
                ),
            ),
            Err(text) => file.data.len() > 0 ==> batch_description(rows) == Err::<
                Seq<char>,
                Seq<char>,
            >("failed to decode "@ + file.format + " image: "@ + ("decode error: "@ + text)),
        },
        compressed_in(rows) matches Ok(file) ==> (file.data.len() == 0 ==> batch_description(rows)
            == Ok::<Seq<char>, Seq<char>>(
            description("CompressedImage"@, file.format, 0, 0, 0),
        )),
{
    if let Ok(file) = compressed_in(rows) {
        if let Ok((width, height, _)) = decoded_rgb8(file.data) {
            let (w, h) = (width as nat, height as nat);
            assert(w * h * 3 == h * w * 3) by (nonlinear_arith);
        }
    }
}

/// The line about a message: its number, the time in milliseconds at which it was
/// received, and what it is or why that is not known. A clock that shows nothing
/// counts as zero.
pub proof fn law_report_line(
    count: u64,
    received_at_ms: u128,
    described: &Result<String, SinkError>,
    elapsed_ms: Option<u128>,
    line: String,
    time: u128,
)
    requires
        call_ensures(report_line, (count, received_at_ms, described), line),
        call_ensures(receive_time_ms, (elapsed_ms,), time),
    ensures
        described matches Ok(text) ==> line@ == "count="@ + decimal(count as nat)
            + " received_at_unix_ms="@ + decimal(received_at_ms as nat) + " "@ + text@,
        described matches Err(e) ==> line@ == "count="@ + decimal(count as nat)
            + " received_at_unix_ms="@ + decimal(received_at_ms as nat) + " "@ + (
        "decode_error="@ + sink_error_text(*e)),
        elapsed_ms is None ==> time == 0,
        elapsed_ms matches Some(ms) ==> time == ms,
{
}

/// `decode_and_describe` returns the description of a batch, or an error with the
/// text of the reason; what is no batch is refused as such.
pub proof fn law_batches_are_described(
    batch: Option<&MessageBatch>,
    r: Result<String, SinkError>,
)
    requires
        call_ensures(decode_and_describe, (batch,), r),
    ensures
        batch is None ==> r == Err::<String, SinkError>(SinkError::NotStruct),
        batch matches Some(b) ==> match batch_description(batch_rows(*b)) {
            Ok(text) => r matches Ok(s) && s@ == text,
            Err(text) => r matches Err(e) && sink_error_text(e) == text,
        },
        batch matches Some(b) ==> (image_in(batch_rows(*b)) matches Some(m) ==> (r matches Ok(s)
            && s@ == "message="@ + "Image"@ + " encoding="@ + m.encoding + " width="@ + decimal(
            m.width as nat,
        ) + " height="@ + decimal(m.height as nat) + " bytes="@ + decimal(m.data.len()))),
{
}

/// The node that reports uses the input `image` and reports every thirtieth
/// message, unless configured otherwise.
pub proof fn law_sink_defaults(input: String, every: u64)
    requires
        call_ensures(default_input_id, (), input),
        call_ensures(default_log_every, (), every),
    ensures
        input@ == "image"@,
        every == 30,
{
}

/// A message at the configured input is counted, and reported as `should_log`
/// says of its number; nothing else is counted or reported. A stop and the end of
/// all events end the node, and an error ends it with its text.
pub proof fn law_messages_are_counted(event: NodeEvent, config: &SinkConfig, r: SinkAction)
    ensures
        forall|count: &mut u64| #[trigger]
            call_ensures(on_sink_event, (count, event, config), r) ==> {
                let is_message = event matches NodeEvent::Input(id) && id@ == config.input_id@;
                &&& *final(count) == *count + (if is_message {
                    1int
                } else {
                    0int
                })
                &&& is_message ==> (if *final(count) == 1 || config.log_every <= 1
                    || *final(count) % config.log_every == 0 {
                    r == (SinkAction::Report { count: *final(count) })
                } else {
                    r == SinkAction::Wait
                })
                &&& event is Stop || event is Closed ==> r == SinkAction::Exit
                &&& event matches NodeEvent::Error(message) ==> (r matches SinkAction::Fail(text)
                    && text@ == "Dora error: "@ + message@)
                &&& event is Other || (event is Input && !is_message) ==> r == SinkAction::Wait
            },
{
}

/// The text of an error says what the data are not, or what could not be decoded
/// and why.
pub proof fn law_texts_of_sink_errors(reason: String, format: String)
    ensures
        sink_error_text(SinkError::NotStruct) == "input is not an Arrow StructArray"@,
        sink_error_text(SinkError::NotImage(reason)) == "not Image or CompressedImage: "@ + reason@,
        sink_error_text(SinkError::Undecodable { format, reason }) == "failed to decode "@ + format@
            + " image: "@ + reason@,
{
}

} // verus!
