//! Multipart form encoding for image-generation requests.
//!
//! A form is a boundary string and an ordered list of parts. Its wire format
//! is fixed byte for byte: every part is introduced by `--boundary\r\n`, and
//! the body ends with `--boundary--\r\n`.

use crate::text::{is_ascii_alphanumeric, lemma_utf8_concat, push_str, str_eq};
use rand::distr::Alphanumeric;
use rand::Rng;
use vstd::prelude::*;
use vstd::string::*;
use vstd::utf8::*;

verus! {

/// One field of a multipart form, as the values it carries.
pub enum PartView {
    /// A plain text field.
    Text { name: Seq<char>, value: Seq<char> },
    /// A file field with its raw content.
    File { name: Seq<char>, filename: Seq<char>, content_type: Seq<char>, content: Seq<u8> },
}

/// A form under construction, as the values it carries.
pub struct BuilderView {
    /// The string that separates the parts.
    pub boundary: Seq<char>,
    /// The parts, in the order in which they were added.
    pub parts: Seq<PartView>,
}

/// The line that introduces each part: `--boundary\r\n`.
pub open spec fn delimiter(boundary: Seq<char>) -> Seq<u8> {
    encode_utf8("--"@ + boundary + "\r\n"@)
}

/// The line that ends the body: `--boundary--\r\n`.
pub open spec fn closing_delimiter(boundary: Seq<char>) -> Seq<u8> {
    encode_utf8("--"@ + boundary + "--\r\n"@)
}

/// The headers and value of a text field.
pub open spec fn text_block(name: Seq<char>, value: Seq<char>) -> Seq<u8> {
    encode_utf8(
        "Content-Disposition: form-data; name=\""@ + name + "\"\r\n\r\n"@ + value + "\r\n"@,
    )
}

/// The header line of a file field that gives its name and its file name.
pub open spec fn file_disposition(name: Seq<char>, filename: Seq<char>) -> Seq<u8> {
    encode_utf8(
        "Content-Disposition: form-data; name=\""@ + name + "\"; filename=\""@ + filename
            + "\"\r\n"@,
    )
}

/// The header line of a file field that gives its media type, the empty
/// line, and the content. The content is taken as it is.
pub open spec fn file_content(content_type: Seq<char>, content: Seq<u8>) -> Seq<u8> {
    encode_utf8("Content-Type: "@ + content_type + "\r\n\r\n"@) + content + encode_utf8(
        "\r\n"@,
    )
}

/// The headers and content of a file field.
pub open spec fn file_block(
    name: Seq<char>,
    filename: Seq<char>,
    content_type: Seq<char>,
    content: Seq<u8>,
) -> Seq<u8> {
    file_disposition(name, filename) + file_content(content_type, content)
}

/// What one part contributes to the body after its delimiter.
pub open spec fn part_block(part: PartView) -> Seq<u8> {
    match part {
        PartView::Text { name, value } => text_block(name, value),
        PartView::File { name, filename, content_type, content } => file_block(
            name,
            filename,
            content_type,
            content,
        ),
    }
}

/// The parts in order, each behind its delimiter.
pub open spec fn encoded_parts(boundary: Seq<char>, parts: Seq<PartView>) -> Seq<u8>
    decreases parts.len(),
{
    if parts.len() == 0 {
        Seq::empty()
    } else {
        encoded_parts(boundary, parts.drop_last()) + delimiter(boundary) + part_block(parts.last())
    }
}

/// The whole body: the parts, then the closing delimiter.
pub open spec fn encoded_body(boundary: Seq<char>, parts: Seq<PartView>) -> Seq<u8> {
    encoded_parts(boundary, parts) + closing_delimiter(boundary)
}

/// The `Content-Type` header value that announces the boundary.
pub open spec fn content_type_header(boundary: Seq<char>) -> Seq<char> {
    "multipart/form-data; boundary="@ + boundary
}

/// Whether `body` holds `block` at offset `at`.
pub open spec fn holds_at(body: Seq<u8>, block: Seq<u8>, at: int) -> bool {
    0 <= at && at + block.len() <= body.len() && body.subrange(at, at + block.len()) == block
}

/// Whether `body` holds `block` somewhere.
pub open spec fn contains_block(body: Seq<u8>, block: Seq<u8>) -> bool {
    exists|at: int| holds_at(body, block, at)
}

/// Where in the body the block of part `index` begins.
pub open spec fn part_offset(boundary: Seq<char>, parts: Seq<PartView>, index: int) -> int {
    (encoded_parts(boundary, parts.take(index)).len() + delimiter(boundary).len()) as int
}

/// The number of characters in a generated boundary.
pub const BOUNDARY_LEN: usize = 30;

/// Whether every character of `s` is an ASCII letter or digit.
pub open spec fn all_ascii_alphanumeric(s: Seq<char>) -> bool {
    forall|i: int| 0 <= i < s.len() ==> is_ascii_alphanumeric(#[trigger] s[i])
}

/// Whether `s` has the shape of a generated boundary.
pub open spec fn is_generated_boundary(s: Seq<char>) -> bool {
    s.len() == BOUNDARY_LEN && all_ascii_alphanumeric(s)
}

/// One field of a multipart form.
#[derive(Debug)]
enum Part<'a> {
    /// A plain text field.
    Text { name: &'a str, value: &'a str },
    /// A file field given as raw bytes.
    FileBytes { name: &'a str, filename: &'a str, content_type: &'a str, content: &'a [u8] },
}

impl<'a> View for Part<'a> {
    type V = PartView;

    closed spec fn view(&self) -> PartView {
        match *self {
            Part::Text { name, value } => PartView::Text { name: name@, value: value@ },
            Part::FileBytes { name, filename, content_type, content } => PartView::File {
                name: name@,
                filename: filename@,
                content_type: content_type@,
                content: content@,
            },
        }
    }
}

/// Builds a multipart/form-data request body.
#[derive(Debug)]
pub struct Builder<'a> {
    boundary: String,
    parts: Vec<Part<'a>>,
}

/// A finished body with the header value that goes with it.
#[derive(Debug)]
pub struct Body {
    /// The raw bytes of the multipart/form-data body.
    pub body: Vec<u8>,
    /// The value for the `Content-Type` header.
    pub content_type: String,
}

impl<'a> View for Builder<'a> {
    type V = BuilderView;

    closed spec fn view(&self) -> BuilderView {
        BuilderView {
            boundary: self.boundary@,
            parts: Seq::new(self.parts@.len(), |i: int| self.parts@[i]@),
        }
    }
}

impl<'a> Builder<'a> {
    /// Starts an empty form with a freshly generated boundary.
    pub fn new() -> (builder: Self)
        ensures
            is_generated_boundary(builder@.boundary),
            builder@.parts == Seq::<PartView>::empty(),
    {
        Builder::with_boundary(generate_boundary())
    }

    /// Starts an empty form with the given boundary.
    pub fn with_boundary(boundary: String) -> (builder: Self)
        ensures
            builder@.boundary == boundary@,
            builder@.parts == Seq::<PartView>::empty(),
    {
        Builder { boundary, parts: Vec::new() }
    }

    /// Adds a text field after the parts that are already there.
    pub fn add_text(&mut self, name: &'a str, value: &'a str)
        ensures
            final(self)@.boundary == old(self)@.boundary,
            final(self)@.parts == old(self)@.parts.push(
                PartView::Text { name: name@, value: value@ },
            ),
    {
        self.parts.push(Part::Text { name, value });
    }

    /// Adds a file field from bytes in memory after the parts that are already there.
    pub fn add_file_bytes(
        &mut self,
        name: &'a str,
        filename: &'a str,
        content_type: &'a str,
        content: &'a [u8],
    )
        ensures
            final(self)@.boundary == old(self)@.boundary,
            final(self)@.parts == old(self)@.parts.push(
                PartView::File {
                    name: name@,
                    filename: filename@,
                    content_type: content_type@,
                    content: content@,
                },
            ),
    {
        self.parts.push(Part::FileBytes { name, filename, content_type, content });
    }

    /// Serialises the parts in the order in which they were added, closes the
    /// body, and returns it with its `Content-Type` header value.
    pub fn build(self) -> (body: Body)
        ensures
            body.body@ == encoded_body(self@.boundary, self@.parts),
            body.content_type@ == content_type_header(self@.boundary),
    {
        let ghost boundary = self@.boundary;
        let ghost parts = self@.parts;
        let mut out: Vec<u8> = Vec::new();
        let count = self.parts.len();
        let mut i: usize = 0;
        proof {
            assert(parts.take(0) =~= Seq::<PartView>::empty());
        }
        while i < count
            invariant
                i <= count,
                count == self.parts@.len(),
                boundary == self.boundary@,
                parts == self@.parts,
                out@ == encoded_parts(boundary, parts.take(i as int)),
            decreases count - i,
        {
            push_delimiter(&mut out, self.boundary.as_str());
            push_part(&mut out, &self.parts[i]);
            proof {
                let next = parts.take(i as int + 1);
                assert(next.drop_last() =~= parts.take(i as int));
                assert(next.last() == parts[i as int]);
                assert(parts[i as int] == self.parts@[i as int]@);
            }
            i += 1;
        }
        proof {
            assert(parts.take(count as int) =~= parts);
        }
        push_closing_delimiter(&mut out, self.boundary.as_str());
        let mut content_type = String::from_str("multipart/form-data; boundary=");
        content_type.append(self.boundary.as_str());
        Body { body: out, content_type }
    }
}

/// Appends `--boundary\r\n`.
fn push_delimiter(out: &mut Vec<u8>, boundary: &str)
    ensures
        final(out)@ == old(out)@ + delimiter(boundary@),
{
    push_str(out, "--");
    push_str(out, boundary);
    push_str(out, "\r\n");
    proof {
        lemma_utf8_concat3("--"@, boundary@, "\r\n"@);
    }
}

/// Appends `--boundary--\r\n`.
fn push_closing_delimiter(out: &mut Vec<u8>, boundary: &str)
    ensures
        final(out)@ == old(out)@ + closing_delimiter(boundary@),
{
    push_str(out, "--");
    push_str(out, boundary);
    push_str(out, "--\r\n");
    proof {
        lemma_utf8_concat3("--"@, boundary@, "--\r\n"@);
    }
}

/// Appends the headers and value of a text field.
fn push_text_block(out: &mut Vec<u8>, name: &str, value: &str)
    ensures
        final(out)@ == old(out)@ + text_block(name@, value@),
{
    push_str(out, "Content-Disposition: form-data; name=\"");
    push_str(out, name);
    push_str(out, "\"\r\n\r\n");
    push_str(out, value);
    push_str(out, "\r\n");
    proof {
        lemma_utf8_concat5(
            "Content-Disposition: form-data; name=\""@,
            name@,
            "\"\r\n\r\n"@,
            value@,
            "\r\n"@,
        );
    }
}

/// Appends the headers and content of a file field.
fn push_file_block(
    out: &mut Vec<u8>,
    name: &str,
    filename: &str,
    content_type: &str,
    content: &[u8],
)
    ensures
        final(out)@ == old(out)@ + file_block(name@, filename@, content_type@, content@),
{
    push_str(out, "Content-Disposition: form-data; name=\"");
    push_str(out, name);
    push_str(out, "\"; filename=\"");
    push_str(out, filename);
    push_str(out, "\"\r\n");
    proof {
        lemma_utf8_concat5(
            "Content-Disposition: form-data; name=\""@,
            name@,
            "\"; filename=\""@,
            filename@,
            "\"\r\n"@,
        );
    }
    push_str(out, "Content-Type: ");
    push_str(out, content_type);
    push_str(out, "\r\n\r\n");
    out.extend_from_slice(content);
    push_str(out, "\r\n");
    proof {
        lemma_utf8_concat3("Content-Type: "@, content_type@, "\r\n\r\n"@);
    }
}

/// Appends what one part contributes to the body after its delimiter.
fn push_part(out: &mut Vec<u8>, part: &Part<'_>)
    ensures
        final(out)@ == old(out)@ + part_block(part@),
{
    match part {
        Part::Text { name, value } => push_text_block(out, name, value),
        Part::FileBytes { name, filename, content_type, content } => push_file_block(
            out,
            name,
            filename,
            content_type,
            content,
        ),
    }
}

/// Encoding three strings one after another encodes their concatenation.
proof fn lemma_utf8_concat3(a: Seq<char>, b: Seq<char>, c: Seq<char>)
    ensures
        encode_utf8(a + b + c) == encode_utf8(a) + encode_utf8(b) + encode_utf8(c),
{
    lemma_utf8_concat(a, b);
    lemma_utf8_concat(a + b, c);
}

/// Encoding five strings one after another encodes their concatenation.
proof fn lemma_utf8_concat5(a: Seq<char>, b: Seq<char>, c: Seq<char>, d: Seq<char>, e: Seq<char>)
    ensures
        encode_utf8(a + b + c + d + e) == encode_utf8(a) + encode_utf8(b) + encode_utf8(c)
            + encode_utf8(d) + encode_utf8(e),
{
    lemma_utf8_concat3(a, b, c);
    lemma_utf8_concat(a + b + c, d);
    lemma_utf8_concat(a + b + c + d, e);
}

/// Draws `len` characters with `rand::Rng::sample_iter` from the thread's
/// generator, through the distribution `rand::distr::Alphanumeric`. Which
/// characters come is left open; each is an ASCII letter or digit, and there
/// are `len` of them.
#[verifier::external_body]
fn random_alphanumeric(len: usize) -> (s: String)
    ensures
        s@.len() == len,
        all_ascii_alphanumeric(s@),
{
    rand::rng().sample_iter(&Alphanumeric).take(len).map(char::from).collect()
}

/// Generates a random boundary of `BOUNDARY_LEN` ASCII letters and digits.
pub fn generate_boundary() -> (boundary: String)
    ensures
        is_generated_boundary(boundary@),
{
    random_alphanumeric(BOUNDARY_LEN)
}

/// The media type that goes with a file extension. The match is exact, so
/// upper case does not count.
pub open spec fn mime_for_extension(ext: Option<Seq<char>>) -> Seq<char> {
    if ext == Some("png"@) {
        "image/png"@
    } else if ext == Some("jpg"@) || ext == Some("jpeg"@) {
        "image/jpeg"@
    } else if ext == Some("webp"@) {
        "image/webp"@
    } else {
        "application/octet-stream"@
    }
}

/// The extension that `std::path::Path::extension` finds in a path, where
/// it has one.
pub uninterp spec fn path_extension(path: Seq<char>) -> Option<Seq<char>>;

/// Calls `std::path::Path::extension` on `path`. The result is a function of
/// the path's characters alone, named `path_extension`; an extension cut
/// from a string is itself a string.
#[verifier::external_body]
fn extension_of<'a>(path: &'a str) -> (ext: Option<&'a str>)
    ensures
        match ext {
            Some(e) => path_extension(path@) == Some(e@),
            None => path_extension(path@) is None,
        },
{
    std::path::Path::new(path).extension().and_then(|e| e.to_str())
}

/// The media type for an extension that was already cut from a file name.
pub fn mime_from_extension(ext: Option<&str>) -> (mime: &'static str)
    ensures
        mime@ == mime_for_extension(
            match ext {
                Some(e) => Some(e@),
                None => None,
            },
        ),
{
    match ext {
        Some(e) => {
            if str_eq(e, "png") {
                "image/png"
            } else if str_eq(e, "jpg") || str_eq(e, "jpeg") {
                "image/jpeg"
            } else if str_eq(e, "webp") {
                "image/webp"
            } else {
                "application/octet-stream"
            }
        },
        None => "application/octet-stream",
    }
}

/// Infers a media type from the extension of a file name.
pub fn mime_from_filename(path: &str) -> (mime: &'static str)
    ensures
        mime@ == mime_for_extension(path_extension(path@)),
{
    mime_from_extension(extension_of(path))
}

/// The eight bytes that open a PNG file.
pub open spec fn png_signature() -> Seq<u8> {
    seq![0x89u8, 0x50u8, 0x4Eu8, 0x47u8, 0x0Du8, 0x0Au8, 0x1Au8, 0x0Au8]
}

/// The four bytes `RIFF` that open a RIFF container.
pub open spec fn riff_tag() -> Seq<u8> {
    seq![0x52u8, 0x49u8, 0x46u8, 0x46u8]
}

/// The four bytes `WEBP` that name the content of a RIFF container.
pub open spec fn webp_tag() -> Seq<u8> {
    seq![0x57u8, 0x45u8, 0x42u8, 0x50u8]
}

/// The two bytes that open a JPEG file.
pub open spec fn jpeg_marker() -> Seq<u8> {
    seq![0xFFu8, 0xD8u8]
}

/// Whether the bytes begin with the PNG signature.
pub open spec fn is_png(bytes: Seq<u8>) -> bool {
    png_signature().is_prefix_of(bytes)
}

/// Whether the bytes begin with `RIFF` and carry `WEBP` at offset 8.
pub open spec fn is_webp(bytes: Seq<u8>) -> bool {
    bytes.len() >= 12 && riff_tag().is_prefix_of(bytes) && bytes.subrange(8, 12) == webp_tag()
}

/// Whether the bytes begin with the JPEG marker.
pub open spec fn is_jpeg(bytes: Seq<u8>) -> bool {
    jpeg_marker().is_prefix_of(bytes)
}

/// The media type that the leading bytes give away: PNG first, then WebP,
/// then JPEG, else the generic binary type.
pub open spec fn sniffed_mime(bytes: Seq<u8>) -> Seq<char> {
    if is_png(bytes) {
        "image/png"@
    } else if is_webp(bytes) {
        "image/webp"@
    } else if is_jpeg(bytes) {
        "image/jpeg"@
    } else {
        "application/octet-stream"@
    }
}

/// Detects the media type of a byte buffer from its leading bytes.
pub fn mime_from_bytes(bytes: &[u8]) -> (mime: &'static str)
    ensures
        mime@ == sniffed_mime(bytes@),
{
    let len = bytes.len();
    if len >= 8 && bytes[0] == 0x89 && bytes[1] == 0x50 && bytes[2] == 0x4E && bytes[3] == 0x47
        && bytes[4] == 0x0D && bytes[5] == 0x0A && bytes[6] == 0x1A && bytes[7] == 0x0A {
        assert(png_signature() =~= bytes@.subrange(0, 8));
        return "image/png";
    }
    assert(!is_png(bytes@)) by {
        if is_png(bytes@) {
            let head = bytes@.subrange(0, 8);
            assert(head == png_signature());
            assert(forall|i: int| 0 <= i < 8 ==> bytes@[i] == head[i]);
        }
    }
    if len >= 12 && bytes[0] == 0x52 && bytes[1] == 0x49 && bytes[2] == 0x46 && bytes[3] == 0x46
        && bytes[8] == 0x57 && bytes[9] == 0x45 && bytes[10] == 0x42 && bytes[11] == 0x50 {
        assert(riff_tag() =~= bytes@.subrange(0, 4));
        assert(bytes@.subrange(8, 12) =~= webp_tag());
        return "image/webp";
    }
    assert(!is_webp(bytes@)) by {
        if is_webp(bytes@) {
            let head = bytes@.subrange(0, 4);
            let tag = bytes@.subrange(8, 12);
            assert(head == riff_tag());
            assert(tag == webp_tag());
            assert(forall|i: int| 0 <= i < 4 ==> bytes@[i] == head[i]);
            assert(forall|i: int| 0 <= i < 4 ==> bytes@[8 + i] == tag[i]);
        }
    }
    if len >= 2 && bytes[0] == 0xFF && bytes[1] == 0xD8 {
        assert(jpeg_marker() =~= bytes@.subrange(0, 2));
        return "image/jpeg";
    }
    assert(!is_jpeg(bytes@)) by {
        if is_jpeg(bytes@) {
            let head = bytes@.subrange(0, 2);
            assert(head == jpeg_marker());
            assert(forall|i: int| 0 <= i < 2 ==> bytes@[i] == head[i]);
        }
    }
    "application/octet-stream"
}

/// The file extension that goes with a media type, where one is known.
pub open spec fn extension_for_mime(mime: Seq<char>) -> Option<Seq<char>> {
    if mime == "image/png"@ {
        Some("png"@)
    } else if mime == "image/jpeg"@ {
        Some("jpg"@)
    } else if mime == "image/webp"@ {
        Some("webp"@)
    } else {
        None
    }
}

/// The file extension for one of the image media types, `None` for any other.
pub fn ext_from_mime(mime: &str) -> (ext: Option<&'static str>)
    ensures
        match ext {
            Some(e) => extension_for_mime(mime@) == Some(e@),
            None => extension_for_mime(mime@) is None,
        },
{
    if str_eq(mime, "image/png") {
        Some("png")
    } else if str_eq(mime, "image/jpeg") {
        Some("jpg")
    } else if str_eq(mime, "image/webp") {
        Some("webp")
    } else {
        None
    }
}

/// A body ends with the closing delimiter, and nothing comes after it.
pub proof fn lemma_body_ends_with_closing_delimiter(boundary: Seq<char>, parts: Seq<PartView>)
    ensures
        closing_delimiter(boundary).is_suffix_of(encoded_body(boundary, parts)),
{
    let body = encoded_body(boundary, parts);
    let closing = closing_delimiter(boundary);
    assert(closing =~= body.subrange(body.len() - closing.len(), body.len() as int));
}

/// A body with at least one part begins with the delimiter of its first part.
pub proof fn lemma_body_starts_with_delimiter(boundary: Seq<char>, parts: Seq<PartView>)
    requires
        parts.len() > 0,
    ensures
        delimiter(boundary).is_prefix_of(encoded_body(boundary, parts)),
{
    lemma_parts_start_with_delimiter(boundary, parts);
    let opening = delimiter(boundary);
    let inner = encoded_parts(boundary, parts);
    let body = encoded_body(boundary, parts);
    assert(opening =~= inner.subrange(0, opening.len() as int));
    assert(opening =~= body.subrange(0, opening.len() as int));
}

/// A body without parts is the closing delimiter and nothing else.
pub proof fn lemma_empty_body(boundary: Seq<char>)
    ensures
        encoded_body(boundary, Seq::<PartView>::empty()) == closing_delimiter(boundary),
{
}

/// Every part stands in the body whole: at `part_offset` the body holds
/// the part's block byte for byte, and right before it the delimiter.
pub proof fn lemma_body_contains_part(boundary: Seq<char>, parts: Seq<PartView>, index: int)
    requires
        0 <= index < parts.len(),
    ensures
        holds_at(
            encoded_body(boundary, parts),
            part_block(parts[index]),
            part_offset(boundary, parts, index),
        ),
        holds_at(
            encoded_body(boundary, parts),
            delimiter(boundary),
            part_offset(boundary, parts, index) - delimiter(boundary).len(),
        ),
{
    lemma_parts_contain_part(boundary, parts, index);
    let inner = encoded_parts(boundary, parts);
    let body = encoded_body(boundary, parts);
    let start = part_offset(boundary, parts, index);
    let end = start + part_block(parts[index]).len();
    assert(body.subrange(start, end) =~= inner.subrange(start, end));
    assert(body.subrange(start - delimiter(boundary).len(), start) =~= inner.subrange(
        start - delimiter(boundary).len(),
        start,
    ));
}

/// The body of a form with a text part holds the part's header, the empty
/// line, the value and a line end, one right after the other.
pub proof fn lemma_body_contains_text_part(
    boundary: Seq<char>,
    parts: Seq<PartView>,
    index: int,
    name: Seq<char>,
    value: Seq<char>,
)
    requires
        0 <= index < parts.len(),
        parts[index] == (PartView::Text { name, value }),
    ensures
        contains_block(encoded_body(boundary, parts), text_block(name, value)),
{
    lemma_body_contains_part(boundary, parts, index);
}

/// The body of a form with a file part holds the line with the part's name
/// and file name, and right behind it the line with the media type, the
/// empty line, the content and a line end.
pub proof fn lemma_body_contains_file_part(
    boundary: Seq<char>,
    parts: Seq<PartView>,
    index: int,
    name: Seq<char>,
    filename: Seq<char>,
    content_type: Seq<char>,
    content: Seq<u8>,
)
    requires
        0 <= index < parts.len(),
        parts[index] == (PartView::File { name, filename, content_type, content }),
    ensures
        contains_block(
            encoded_body(boundary, parts),
            file_disposition(name, filename) + file_content(content_type, content),
        ),
{
    lemma_body_contains_part(boundary, parts, index);
}

/// Parts stand in the body in the order in which they were added: a part
/// added earlier ends before the delimiter of a part added later begins.
pub proof fn lemma_parts_keep_their_order(
    boundary: Seq<char>,
    parts: Seq<PartView>,
    earlier: int,
    later: int,
)
    requires
        0 <= earlier < later < parts.len(),
    ensures
        part_offset(boundary, parts, earlier) + part_block(parts[earlier]).len() <= part_offset(
            boundary,
            parts,
            later,
        ) - delimiter(boundary).len(),
{
    let through = parts.take(earlier + 1);
    assert(through.drop_last() =~= parts.take(earlier));
    assert(through.last() == parts[earlier]);
    lemma_encoded_parts_grow(boundary, parts, earlier + 1, later);
}

/// More parts make a longer encoding.
proof fn lemma_encoded_parts_grow(boundary: Seq<char>, parts: Seq<PartView>, fewer: int, more: int)
    requires
        0 <= fewer <= more <= parts.len(),
    ensures
        encoded_parts(boundary, parts.take(fewer)).len() <= encoded_parts(
            boundary,
            parts.take(more),
        ).len(),
    decreases more - fewer,
{
    if fewer < more {
        lemma_encoded_parts_grow(boundary, parts, fewer, more - 1);
        assert(parts.take(more).drop_last() =~= parts.take(more - 1));
    }
}

/// The parts of a form with at least one part begin with a delimiter.
proof fn lemma_parts_start_with_delimiter(boundary: Seq<char>, parts: Seq<PartView>)
    requires
        parts.len() > 0,
    ensures
        delimiter(boundary).is_prefix_of(encoded_parts(boundary, parts)),
    decreases parts.len(),
{
    let opening = delimiter(boundary);
    let inner = encoded_parts(boundary, parts);
    let before = encoded_parts(boundary, parts.drop_last());
    if parts.len() == 1 {
        assert(before =~= Seq::<u8>::empty());
        assert(opening =~= inner.subrange(0, opening.len() as int));
    } else {
        lemma_parts_start_with_delimiter(boundary, parts.drop_last());
        assert(opening =~= before.subrange(0, opening.len() as int));
        assert(opening =~= inner.subrange(0, opening.len() as int));
    }
}

/// The encoded parts hold each part's delimiter and block where `part_offset` says.
proof fn lemma_parts_contain_part(boundary: Seq<char>, parts: Seq<PartView>, index: int)
    requires
        0 <= index < parts.len(),
    ensures
        holds_at(
            encoded_parts(boundary, parts),
            part_block(parts[index]),
            part_offset(boundary, parts, index),
        ),
        holds_at(
            encoded_parts(boundary, parts),
            delimiter(boundary),
            part_offset(boundary, parts, index) - delimiter(boundary).len(),
        ),
    decreases parts.len(),
{
    let inner = encoded_parts(boundary, parts);
    let before = encoded_parts(boundary, parts.drop_last());
    let start = part_offset(boundary, parts, index);
    let end = start + part_block(parts[index]).len();
    let opening = delimiter(boundary);
    if index == parts.len() - 1 {
        assert(parts.take(index) =~= parts.drop_last());
        assert(inner.subrange(start, end) =~= part_block(parts[index]));
        assert(inner.subrange(start - opening.len(), start) =~= opening);
    } else {
        let shorter = parts.drop_last();
        assert(shorter.take(index) =~= parts.take(index));
        assert(shorter[index] == parts[index]);
        lemma_parts_contain_part(boundary, shorter, index);
        assert(inner.subrange(start, end) =~= before.subrange(start, end));
        assert(inner.subrange(start - opening.len(), start) =~= before.subrange(
            start - opening.len(),
            start,
        ));
    }
}

/// An extension that is not exactly `png`, `jpg`, `jpeg` or `webp`, letter
/// for letter and in lower case, gives the generic binary type, and so does
/// a file name without an extension.
pub proof fn lemma_unknown_extension_is_binary(ext: Option<Seq<char>>)
    requires
        ext != Some("png"@),
        ext != Some("jpg"@),
        ext != Some("jpeg"@),
        ext != Some("webp"@),
    ensures
        mime_for_extension(ext) == "application/octet-stream"@,
{
}

/// A buffer that begins with the PNG signature is PNG, whatever follows.
pub proof fn lemma_png_is_recognised(bytes: Seq<u8>)
    requires
        png_signature().is_prefix_of(bytes),
    ensures
        sniffed_mime(bytes) == "image/png"@,
{
}

/// A buffer that begins with `RIFF`, has `WEBP` at offset 8 and is no PNG is WebP.
pub proof fn lemma_webp_is_recognised(bytes: Seq<u8>)
    requires
        bytes.len() >= 12,
        riff_tag().is_prefix_of(bytes),
        bytes.subrange(8, 12) == webp_tag(),
    ensures
        sniffed_mime(bytes) == "image/webp"@,
{
    if is_png(bytes) {
        assert(bytes[0] == bytes.subrange(0, 8)[0]);
        assert(bytes[0] == bytes.subrange(0, 4)[0]);
        assert(png_signature()[0] == 0x89u8);
        assert(riff_tag()[0] == 0x52u8);
    }
}

/// A buffer that begins with the JPEG marker is JPEG.
pub proof fn lemma_jpeg_is_recognised(bytes: Seq<u8>)
    requires
        jpeg_marker().is_prefix_of(bytes),
    ensures
        sniffed_mime(bytes) == "image/jpeg"@,
{
    assert(bytes[0] == bytes.subrange(0, 2)[0]);
    assert(jpeg_marker()[0] == 0xFFu8);
    if is_png(bytes) {
        assert(bytes[0] == bytes.subrange(0, 8)[0]);
        assert(png_signature()[0] == 0x89u8);
    }
    if is_webp(bytes) {
        assert(bytes[0] == bytes.subrange(0, 4)[0]);
        assert(riff_tag()[0] == 0x52u8);
    }
}

/// A buffer shorter than the shortest signature has the generic binary type.
pub proof fn lemma_short_buffer_is_binary(bytes: Seq<u8>)
    requires
        bytes.len() < 2,
    ensures
        sniffed_mime(bytes) == "application/octet-stream"@,
{
}

/// The four media types are different strings.
pub proof fn lemma_mime_types_differ()
    ensures
        "image/png"@ != "image/jpeg"@,
        "image/png"@ != "image/webp"@,
        "image/png"@ != "application/octet-stream"@,
        "image/jpeg"@ != "image/webp"@,
        "image/jpeg"@ != "application/octet-stream"@,
        "image/webp"@ != "application/octet-stream"@,
{
    reveal_strlit("image/png");
    reveal_strlit("image/jpeg");
    reveal_strlit("image/webp");
    reveal_strlit("application/octet-stream");
    assert("image/png"@[6] == 'p');
    assert("image/jpeg"@[6] == 'j');
    assert("image/webp"@[6] == 'w');
}

} // verus!
