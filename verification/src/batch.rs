//! Image messages and the Arrow batches that carry them, as the `forge_msgs`
//! crate lays them out.

use arrow_array::{Array, LargeBinaryArray, RecordBatch, StringArray, UInt32Array};
use bytes::Bytes;
use vstd::prelude::*;

use crate::buffer::bytes_contents;
use crate::codec::{decoded_rgb8, shape_fits};
use crate::pixels::RgbArray;
use crate::text::{decimal, same_text};

verus! {

/// An uncompressed image.
#[derive(Debug, Clone)]
pub struct ImageMessage {
    pub height: u32,
    pub width: u32,
    /// The pixel encoding, such as `rgb8`.
    pub encoding: String,
    /// Bytes of one row.
    pub step: u32,
    pub data: Bytes,
}

/// A compressed image.
#[derive(Debug, Clone)]
pub struct CompressedImageMessage {
    /// The file format, such as `jpeg`.
    pub format: String,
    pub data: Bytes,
}

/// What an image message says.
#[verifier::ext_equal]
pub struct ImageFields {
    pub height: u32,
    pub width: u32,
    pub encoding: Seq<char>,
    pub step: u32,
    pub data: Seq<u8>,
}

/// What a compressed image message says.
#[verifier::ext_equal]
pub struct CompressedImageFields {
    pub format: Seq<char>,
    pub data: Seq<u8>,
}

impl View for ImageMessage {
    type V = ImageFields;

    open spec fn view(&self) -> ImageFields {
        ImageFields {
            height: self.height,
            width: self.width,
            encoding: self.encoding@,
            step: self.step,
            data: bytes_contents(self.data),
        }
    }
}

impl View for CompressedImageMessage {
    type V = CompressedImageFields;

    open spec fn view(&self) -> CompressedImageFields {
        CompressedImageFields { format: self.format@, data: bytes_contents(self.data) }
    }
}

/// The text that reports a `step` with too little room for the pixels of a row.
pub open spec fn step_error(step: nat, row: nat) -> Seq<char> {
    "invalid image message: step "@ + decimal(step) + " is smaller than width * bytes_per_pixel "@
        + decimal(row)
}

/// The bytes of one pixel in the encodings that image messages know.
pub open spec fn bytes_per_pixel(encoding: Seq<char>) -> Option<nat> {
    if encoding == "rgb8"@ || encoding == "bgr8"@ {
        Some(3)
    } else if encoding == "mono8"@ || encoding == "8UC1"@ {
        Some(1)
    } else if encoding == "16UC1"@ {
        Some(2)
    } else if encoding == "32SC1"@ || encoding == "32FC1"@ {
        Some(4)
    } else {
        None
    }
}

/// The bytes of one pixel, see `bytes_per_pixel`.
fn pixel_size(encoding: &str) -> (r: Option<usize>)
    ensures
        match r {
            Some(n) => bytes_per_pixel(encoding@) == Some(n as nat),
            None => bytes_per_pixel(encoding@) is None,
        },
{
    if same_text(encoding, "rgb8") || same_text(encoding, "bgr8") {
        Some(3)
    } else if same_text(encoding, "mono8") || same_text(encoding, "8UC1") {
        Some(1)
    } else if same_text(encoding, "16UC1") {
        Some(2)
    } else if same_text(encoding, "32SC1") || same_text(encoding, "32FC1") {
        Some(4)
    } else {
        None
    }
}

impl ImageFields {
    /// The encoding is known, a row has room for its pixels, and the data are
    /// as many rows as the image is high.
    pub open spec fn is_valid(self) -> bool {
        self.problem() is None
    }

    /// The text that reports what is wrong with the message, if anything.
    pub open spec fn problem(self) -> Option<Seq<char>> {
        match bytes_per_pixel(self.encoding) {
            None => Some("unsupported encoding: "@ + self.encoding),
            Some(n) => {
                let row = self.width as nat * n;
                let size = self.step as nat * self.height as nat;
                if self.step < row {
                    Some(step_error(self.step as nat, row))
                } else if self.data.len() != size {
                    Some(
                        "invalid image message: data length "@ + decimal(self.data.len())
                            + " must equal step * height "@ + decimal(size),
                    )
                } else {
                    None
                }
            },
        }
    }

    /// The sizes that say whether the message is valid fit in memory.
    pub open spec fn sizes_fit(self) -> bool {
        match bytes_per_pixel(self.encoding) {
            None => true,
            Some(n) => {
                &&& self.width * n <= usize::MAX
                &&& self.width * n <= self.step ==> self.step * self.height <= usize::MAX
            },
        }
    }

    /// The row that holds the message.
    pub open spec fn row(self) -> Map<Seq<char>, ColumnValue> {
        map![
            "height"@ => ColumnValue::UInt32(self.height),
            "width"@ => ColumnValue::UInt32(self.width),
            "encoding"@ => ColumnValue::Utf8(self.encoding),
            "step"@ => ColumnValue::UInt32(self.step),
            "data"@ => ColumnValue::LargeBinary(self.data)
        ]
    }
}

impl CompressedImageFields {
    /// The row that holds the message.
    pub open spec fn row(self) -> Map<Seq<char>, ColumnValue> {
        map![
            "format"@ => ColumnValue::Utf8(self.format),
            "data"@ => ColumnValue::LargeBinary(self.data)
        ]
    }
}

/// A value in a column of a batch.
pub enum ColumnValue {
    UInt32(u32),
    Utf8(Seq<char>),
    LargeBinary(Seq<u8>),
    /// A value of another column type.
    Other,
}

/// An `arrow_array::RecordBatch` that carries a message.
#[verifier::external_body]
#[derive(Debug)]
pub struct MessageBatch {
    pub batch: RecordBatch,
}

/// The rows of a batch: what the first column of each name holds in them.
pub uninterp spec fn batch_rows(b: MessageBatch) -> Seq<Map<Seq<char>, ColumnValue>>;

/// The text column `name` of a row.
pub open spec fn text_column(row: Map<Seq<char>, ColumnValue>, name: Seq<char>) -> Option<
    Seq<char>,
> {
    if row.contains_key(name) {
        match row[name] {
            ColumnValue::Utf8(text) => Some(text),
            _ => None,
        }
    } else {
        None
    }
}

/// The number column `name` of a row.
pub open spec fn number_column(row: Map<Seq<char>, ColumnValue>, name: Seq<char>) -> Option<u32> {
    if row.contains_key(name) {
        match row[name] {
            ColumnValue::UInt32(n) => Some(n),
            _ => None,
        }
    } else {
        None
    }
}

/// The binary column `name` of a row.
pub open spec fn binary_column(row: Map<Seq<char>, ColumnValue>, name: Seq<char>) -> Option<
    Seq<u8>,
> {
    if row.contains_key(name) {
        match row[name] {
            ColumnValue::LargeBinary(data) => Some(data),
            _ => None,
        }
    } else {
        None
    }
}

/// What the first of the rows says of an image, valid or not.
pub open spec fn image_columns(rows: Seq<Map<Seq<char>, ColumnValue>>) -> Option<ImageFields> {
    if rows.len() == 0 {
        None
    } else {
        match (
            number_column(rows[0], "height"@),
            number_column(rows[0], "width"@),
            text_column(rows[0], "encoding"@),
            number_column(rows[0], "step"@),
            binary_column(rows[0], "data"@),
        ) {
            (Some(height), Some(width), Some(encoding), Some(step), Some(data)) => Some(
                ImageFields { height, width, encoding, step, data },
            ),
            _ => None,
        }
    }
}

/// The image message in the first of the rows.
pub open spec fn image_in(rows: Seq<Map<Seq<char>, ColumnValue>>) -> Option<ImageFields> {
    match image_columns(rows) {
        Some(fields) => if fields.is_valid() {
            Some(fields)
        } else {
            None
        },
        None => None,
    }
}

/// The text that reports why the column `name` of a row cannot be read.
pub open spec fn column_error(row: Map<Seq<char>, ColumnValue>, name: Seq<char>) -> Seq<char> {
    if !row.contains_key(name) {
        "invalid image message: missing "@ + name + " column"@
    } else {
        "invalid image message: "@ + name + " column has unexpected type"@
    }
}

/// The compressed image message in the first of the rows, or the text that
/// reports why there is none.
pub open spec fn compressed_in(rows: Seq<Map<Seq<char>, ColumnValue>>) -> Result<
    CompressedImageFields,
    Seq<char>,
> {
    if rows.len() == 0 {
        Err("invalid image message: RecordBatch must contain one row"@)
    } else {
        match (text_column(rows[0], "format"@), binary_column(rows[0], "data"@)) {
            (None, _) => Err(column_error(rows[0], "format"@)),
            (Some(_), None) => Err(column_error(rows[0], "data"@)),
            (Some(format), Some(data)) => if format.len() == 0 {
                Err("invalid image message: format must be non-empty"@)
            } else {
                Ok(CompressedImageFields { format, data })
            },
        }
    }
}

/// `forge_msgs::Image::from_rgb8_ndarray`: the `rgb8` message of an image whose
/// rows follow each other without gaps. It exists unless a row is too long for
/// the `step` field, which is what the error then says.
#[verifier::external_body]
pub(crate) fn rgb8_image(rgb: &RgbArray) -> (r: Result<ImageMessage, String>)
    requires
        rgb.wf(),
    ensures
        match r {
            Ok(m) => {
                &&& rgb.width * 3 <= u32::MAX
                &&& m@ == (ImageFields {
                    height: rgb.height as u32,
                    width: rgb.width as u32,
                    encoding: "rgb8"@,
                    step: (rgb.width * 3) as u32,
                    data: rgb.data@,
                })
            },
            Err(text) => {
                &&& rgb.width * 3 > u32::MAX
                &&& text@ == step_error(
                    ((rgb.width * 3) % 0x1_0000_0000) as nat,
                    (rgb.width * 3) as nat,
                )
            },
        },
{
    match ndarray::ArrayView3::from_shape((rgb.height, rgb.width, 3), &rgb.data) {
        Ok(view) => match forge_msgs::Image::from_rgb8_ndarray(view) {
            Ok(forge_msgs::Image { height, width, encoding, step, data }) => Ok(
                ImageMessage { height, width, encoding, step, data },
            ),
            Err(error) => Err(error.to_string()),
        },
        Err(error) => Err(error.to_string()),
    }
}

/// `forge_msgs::Image::to_record_batch`: a valid message makes a batch of one
/// row that holds its fields, any other an error that says what is wrong with
/// it. It panics where the size of a row or of the image does not fit in memory.
#[verifier::external_body]
pub(crate) fn image_batch(message: ImageMessage) -> (r: Result<MessageBatch, String>)
    requires
        message@.sizes_fit(),
    ensures
        match r {
            Ok(b) => message@.is_valid() && batch_rows(b) == seq![message@.row()],
            Err(text) => message@.problem() == Some(text@),
        },
{
    let ImageMessage { height, width, encoding, step, data } = message;
    match (forge_msgs::Image { height, width, encoding, step, data }).to_record_batch() {
        Ok(batch) => Ok(MessageBatch { batch }),
        Err(error) => Err(error.to_string()),
    }
}

/// `forge_msgs::CompressedImage::new` and `to_record_batch`: a batch of one row
/// that holds the fields of the message, unless the format has no name. It
/// panics where the name of the format takes more than `i32::MAX` bytes.
#[verifier::external_body]
pub(crate) fn compressed_batch(message: CompressedImageMessage) -> (r: Result<
    MessageBatch,
    String,
>)
    requires
        message.format@.len() * 4 <= i32::MAX,
    ensures
        match r {
            Ok(b) => message.format@.len() > 0 && batch_rows(b) == seq![message@.row()],
            Err(text) => {
                &&& message.format@.len() == 0
                &&& text@ == "invalid image message: format must be non-empty"@
            },
        },
{
    let CompressedImageMessage { format, data } = message;
    let built = forge_msgs::CompressedImage::new(format, data);
    match built.and_then(|image| image.to_record_batch()) {
        Ok(batch) => Ok(MessageBatch { batch }),
        Err(error) => Err(error.to_string()),
    }
}

/// `RecordBatch::num_rows`: the number of rows of a batch.
#[verifier::external_body]
fn row_count(b: &MessageBatch) -> (r: usize)
    ensures
        r == batch_rows(*b).len(),
{
    b.batch.num_rows()
}

/// `RecordBatch::column_by_name` and `UInt32Array::value`: what the first row
/// holds in the number column of a name, if there is such a column.
#[verifier::external_body]
fn first_number(b: &MessageBatch, name: &str) -> (r: Option<u32>)
    requires
        batch_rows(*b).len() > 0,
    ensures
        r == number_column(batch_rows(*b)[0], name@),
{
    let column = b.batch.column_by_name(name)?;
    let numbers = column.as_any().downcast_ref::<UInt32Array>()?;
    Some(numbers.value(0))
}

/// `RecordBatch::column_by_name` and `StringArray::value`: what the first row
/// holds in the text column of a name, if there is such a column.
#[verifier::external_body]
fn first_text(b: &MessageBatch, name: &str) -> (r: Option<String>)
    requires
        batch_rows(*b).len() > 0,
    ensures
        match r {
            Some(text) => text_column(batch_rows(*b)[0], name@) == Some(text@),
            None => text_column(batch_rows(*b)[0], name@) is None,
        },
{
    let column = b.batch.column_by_name(name)?;
    let texts = column.as_any().downcast_ref::<StringArray>()?;
    Some(texts.value(0).to_string())
}

/// `RecordBatch::column_by_name` and `LargeBinaryArray::value`: the length of
/// what the first row holds in the binary column of a name, if there is such a
/// column.
#[verifier::external_body]
fn first_binary_len(b: &MessageBatch, name: &str) -> (r: Option<usize>)
    requires
        batch_rows(*b).len() > 0,
    ensures
        match r {
            Some(n) => {
                &&& binary_column(batch_rows(*b)[0], name@) is Some
                &&& binary_column(batch_rows(*b)[0], name@)->0.len() == n
            },
            None => binary_column(batch_rows(*b)[0], name@) is None,
        },
{
    let column = b.batch.column_by_name(name)?;
    let contents = column.as_any().downcast_ref::<LargeBinaryArray>()?;
    Some(contents.value(0).len())
}

/// The image message in the first row of a batch, if there is one. Sizes that
/// do not fit in memory are those of no valid message.
pub fn read_image(b: &MessageBatch) -> (r: Option<ImageMessage>)
    ensures
        match r {
            Some(m) => image_in(batch_rows(*b)) == Some(m@),
            None => image_in(batch_rows(*b)) is None,
        },
{
    if row_count(b) == 0 {
        return None;
    }
    let (height, width, step, len): (u32, u32, u32, usize) = match (
        first_number(b, "height"),
        first_number(b, "width"),
        first_number(b, "step"),
        first_binary_len(b, "data"),
    ) {
        (Some(height), Some(width), Some(step), Some(len)) => (height, width, step, len),
        _ => return None,
    };
    let encoding: String = match first_text(b, "encoding") {
        Some(encoding) => encoding,
        None => return None,
    };
    let pixel: usize = match pixel_size(encoding.as_str()) {
        Some(n) => n,
        None => return None,
    };
    match (width as usize).checked_mul(pixel) {
        Some(row) => if row > step as usize {
            return None;
        },
        None => return None,
    }
    match (step as usize).checked_mul(height as usize) {
        Some(size) => if size != len {
            return None;
        },
        None => return None,
    }
    image_from_batch(b)
}

/// `forge_msgs::Image::from_record_batch`: the valid image message in the first
/// row of a batch, if there is one. It panics where the size of a row or of the
/// image does not fit in memory.
#[verifier::external_body]
fn image_from_batch(b: &MessageBatch) -> (r: Option<ImageMessage>)
    requires
        image_columns(batch_rows(*b)) matches Some(fields) ==> fields.sizes_fit(),
    ensures
        match r {
            Some(m) => image_in(batch_rows(*b)) == Some(m@),
            None => image_in(batch_rows(*b)) is None,
        },
{
    match forge_msgs::Image::from_record_batch(&b.batch) {
        Ok(forge_msgs::Image { height, width, encoding, step, data }) => Some(
            ImageMessage { height, width, encoding, step, data },
        ),
        Err(_) => None,
    }
}

/// `forge_msgs::CompressedImage::from_record_batch`: the compressed image
/// message in the first row of a batch, or the text that says why there is
/// none.
#[verifier::external_body]
pub(crate) fn compressed_from_batch(b: &MessageBatch) -> (r: Result<
    CompressedImageMessage,
    String,
>)
    ensures
        match r {
            Ok(m) => compressed_in(batch_rows(*b)) == Ok::<CompressedImageFields, Seq<char>>(m@),
            Err(text) => compressed_in(batch_rows(*b)) == Err::<CompressedImageFields, Seq<char>>(
                text@,
            ),
        },
{
    match forge_msgs::CompressedImage::from_record_batch(&b.batch) {
        Ok(forge_msgs::CompressedImage { format, data }) => Ok(
            CompressedImageMessage { format, data },
        ),
        Err(error) => Err(error.to_string()),
    }
}

/// Rows and columns of the picture in a compressed image, or the text of the
/// error. An image without data has no pixels, and a picture may be larger than
/// an array can be.
pub open spec fn picture_size(data: Seq<u8>) -> Result<(nat, nat), Seq<char>> {
    if data.len() == 0 {
        Ok((0, 0))
    } else {
        match decoded_rgb8(data) {
            Ok((width, height, _)) => if shape_fits(height as nat, width as nat, 3) {
                Ok((height as nat, width as nat))
            } else {
                Err("invalid image message: ShapeError/Overflow: arithmetic overflow"@)
            },
            Err(text) => Err("decode error: "@ + text),
        }
    }
}

/// `forge_msgs::CompressedImage::to_rgb8_ndarray`: decodes the data with
/// `image::load_from_memory` and `to_rgb8`, whose result `decoded_rgb8` names,
/// and makes an array of the pixels, as `Array3::from_shape_vec` allows; here
/// only the size is kept.
#[verifier::external_body]
pub(crate) fn decoded_size(message: &CompressedImageMessage) -> (r: Result<
    (usize, usize),
    String,
>)
    ensures
        match r {
            Ok((height, width)) => picture_size(bytes_contents(message.data)) == Ok::<
                (nat, nat),
                Seq<char>,
            >((height as nat, width as nat)),
            Err(text) => picture_size(bytes_contents(message.data)) == Err::<
                (nat, nat),
                Seq<char>,
            >(text@),
        },
{
    let (format, data) = (message.format.clone(), message.data.clone());
    match (forge_msgs::CompressedImage { format, data }).to_rgb8_ndarray() {
        Ok(array) => Ok((array.dim().0, array.dim().1)),
        Err(error) => Err(error.to_string()),
    }
}

/// A row that holds an image message gives that message back, and is not taken
/// for a compressed image.
pub proof fn law_image_row_round_trip(m: ImageFields)
    requires
        m.is_valid(),
    ensures
        image_in(seq![m.row()]) == Some(m),
        compressed_in(seq![m.row()]) is Err,
{
    reveal_column_names();
}

/// A row that holds a compressed image message gives that message back, and is
/// not taken for an image.
pub proof fn law_compressed_row_round_trip(m: CompressedImageFields)
    requires
        m.format.len() > 0,
    ensures
        compressed_in(seq![m.row()]) == Ok::<CompressedImageFields, Seq<char>>(m),
        image_in(seq![m.row()]) is None,
{
    reveal_column_names();
}

/// The encodings that image messages know, with the bytes of a pixel: three for
/// `rgb8` and `bgr8`, one for `mono8` and `8UC1`, two for `16UC1`, four for `32SC1`
/// and `32FC1`. No other is known.
pub proof fn law_known_encodings(encoding: Seq<char>)
    ensures
        encoding == "rgb8"@ || encoding == "bgr8"@ ==> bytes_per_pixel(encoding) == Some(3nat),
        encoding == "mono8"@ || encoding == "8UC1"@ ==> bytes_per_pixel(encoding) == Some(1nat),
        encoding == "16UC1"@ ==> bytes_per_pixel(encoding) == Some(2nat),
        encoding == "32SC1"@ || encoding == "32FC1"@ ==> bytes_per_pixel(encoding) == Some(4nat),
        encoding != "rgb8"@ && encoding != "bgr8"@ && encoding != "mono8"@ && encoding != "8UC1"@
            && encoding != "16UC1"@ && encoding != "32SC1"@ && encoding != "32FC1"@
            ==> bytes_per_pixel(encoding) is None,
{
    reveal_strlit("rgb8");
    reveal_strlit("bgr8");
    reveal_strlit("mono8");
    reveal_strlit("8UC1");
    reveal_strlit("16UC1");
    reveal_strlit("32SC1");
    reveal_strlit("32FC1");
    assert("rgb8"@[0] == 'r' && "bgr8"@[0] == 'b' && "mono8"@[0] == 'm' && "8UC1"@[0] == '8');
    assert("16UC1"@[0] == '1' && "32SC1"@[0] == '3' && "32FC1"@[0] == '3');
}

/// What makes an image message valid, in numbers.
pub proof fn law_valid_images(m: ImageFields, n: nat)
    requires
        bytes_per_pixel(m.encoding) == Some(n),
    ensures
        m.is_valid() <==> m.width * n <= m.step && m.data.len() == m.step * m.height,
{
}

/// An image message is read from the columns `height`, `width`, `encoding`,
/// `step` and `data` of the first row, each of its type, if it is valid; other
/// rows and other columns do not matter.
pub proof fn law_images_are_read_by_column(
    rows: Seq<Map<Seq<char>, ColumnValue>>,
    m: ImageFields,
)
    ensures
        image_in(rows) == Some(m) <==> {
            &&& rows.len() > 0
            &&& rows[0].contains_key("height"@) && rows[0]["height"@] == ColumnValue::UInt32(
                m.height,
            )
            &&& rows[0].contains_key("width"@) && rows[0]["width"@] == ColumnValue::UInt32(m.width)
            &&& rows[0].contains_key("encoding"@) && rows[0]["encoding"@] == ColumnValue::Utf8(
                m.encoding,
            )
            &&& rows[0].contains_key("step"@) && rows[0]["step"@] == ColumnValue::UInt32(m.step)
            &&& rows[0].contains_key("data"@) && rows[0]["data"@] == ColumnValue::LargeBinary(
                m.data,
            )
            &&& m.is_valid()
        },
{
}

/// A compressed image message is read from the columns `format` and `data` of the
/// first row, each of its type, if the format has a name.
pub proof fn law_compressed_images_are_read_by_column(
    rows: Seq<Map<Seq<char>, ColumnValue>>,
    m: CompressedImageFields,
)
    ensures
        compressed_in(rows) == Ok::<CompressedImageFields, Seq<char>>(m) <==> {
            &&& rows.len() > 0
            &&& rows[0].contains_key("format"@) && rows[0]["format"@] == ColumnValue::Utf8(m.format)
            &&& rows[0].contains_key("data"@) && rows[0]["data"@] == ColumnValue::LargeBinary(
                m.data,
            )
            &&& m.format.len() > 0
        },
{
}

/// The names of the columns differ.
pub(crate) proof fn reveal_column_names()
    ensures
        "height"@ != "width"@,
        "height"@ != "encoding"@,
        "height"@ != "step"@,
        "height"@ != "data"@,
        "height"@ != "format"@,
        "width"@ != "encoding"@,
        "width"@ != "step"@,
        "width"@ != "data"@,
        "encoding"@ != "step"@,
        "encoding"@ != "data"@,
        "encoding"@ != "format"@,
        "step"@ != "data"@,
        "step"@ != "format"@,
        "width"@ != "format"@,
        "format"@ != "data"@,
{
    reveal_strlit("height");
    reveal_strlit("width");
    reveal_strlit("encoding");
    reveal_strlit("step");
    reveal_strlit("data");
    reveal_strlit("format");
    assert("height"@[0] == 'h');
    assert("width"@[0] == 'w');
    assert("encoding"@[0] == 'e');
    assert("step"@[0] == 's');
    assert("data"@[0] == 'd');
    assert("format"@[0] == 'f');
}

} // verus!
