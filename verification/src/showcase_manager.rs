//! The rules around showcases: reading an uploaded image, naming the files
//! of a showcase, and writing the statement that updates one.

use crate::models::UpdateShowcasePayload;
use crate::text::{
    append_chars, append_decimal, chars_of, decimal, find_char, first_index_of, same_chars,
    starts_with, trim_chars, trimmed,
};
use vstd::prelude::*;
use vstd::string::StringExecFns;

verus! {

/// What `base64` makes of a text in the standard alphabet with padding: the
/// bytes it writes, or the text of the error.
pub uninterp spec fn base64_decoded(text: Seq<char>) -> Result<Seq<u8>, Seq<char>>;

/// `base64::Engine::decode` of the engine `general_purpose::STANDARD`. An
/// error is handed on as its text (`to_string` of `base64::DecodeError`).
#[verifier::external_body]
pub(crate) fn decode_base64(text: &str) -> (r: Result<Vec<u8>, String>)
    ensures
        match r {
            Ok(bytes) => base64_decoded(text@) == Ok::<Seq<u8>, Seq<char>>(bytes@),
            Err(why) => base64_decoded(text@) == Err::<Seq<u8>, Seq<char>>(why@),
        },
{
    match base64::Engine::decode(&base64::engine::general_purpose::STANDARD, text) {
        Ok(bytes) => Ok(bytes),
        Err(e) => Err(e.to_string()),
    }
}

/// The file extension under which an uploaded image of this type is kept.
pub open spec fn upload_extension(mime: Seq<char>) -> Option<Seq<char>> {
    if mime == "image/png"@ {
        Some("png"@)
    } else if mime == "image/jpeg"@ {
        Some("jpg"@)
    } else if mime == "image/webp"@ {
        Some("webp"@)
    } else if mime == "image/gif"@ {
        Some("gif"@)
    } else {
        None
    }
}

/// What stands in a data URI before its first `;`, or all of it.
pub open spec fn before_parameters(prefix: Seq<char>) -> Seq<char> {
    if first_index_of(prefix, ';') < 0 {
        prefix
    } else {
        prefix.take(first_index_of(prefix, ';'))
    }
}

/// The parts of a data URI: the extension for its image type and the text of
/// the data after the first comma. The reasons why there are none come in
/// this order: no comma, no `data:` at the start, a type that is not
/// supported.
pub open spec fn uri_parts(uri: Seq<char>) -> Result<(Seq<char>, Seq<char>), Seq<char>> {
    let comma = first_index_of(uri, ',');
    if comma < 0 {
        Err("Invalid Data URI format (missing data)"@)
    } else {
        let head = before_parameters(uri.take(comma));
        if !"data:"@.is_prefix_of(head) {
            Err("Invalid Data URI format (missing 'data:' or ';')"@)
        } else {
            let mime = head.skip("data:"@.len() as int);
            match upload_extension(mime) {
                Some(extension) => Ok((extension, uri.skip(comma + 1))),
                None => Err("Unsupported image MIME type: "@ + mime),
            }
        }
    }
}

/// The image that a data URI holds and the extension to keep it under, or
/// why it holds none.
pub open spec fn uri_image(uri: Seq<char>) -> Result<(Seq<u8>, Seq<char>), Seq<char>> {
    match uri_parts(uri) {
        Ok(parts) => match base64_decoded(parts.1) {
            Ok(bytes) => Ok((bytes, parts.0)),
            Err(why) => Err("Base64 decoding failed: "@ + why),
        },
        Err(why) => Err(why),
    }
}

/// The extension under which an uploaded image of type `mime` is kept.
pub fn extension_for(mime: &Vec<char>) -> (r: Option<&'static str>)
    ensures
        match r {
            Some(e) => upload_extension(mime@) == Some(e@),
            None => upload_extension(mime@) is None,
        },
{
    if same_chars(mime, &chars_of("image/png")) {
        Some("png")
    } else if same_chars(mime, &chars_of("image/jpeg")) {
        Some("jpg")
    } else if same_chars(mime, &chars_of("image/webp")) {
        Some("webp")
    } else if same_chars(mime, &chars_of("image/gif")) {
        Some("gif")
    } else {
        None
    }
}

/// Takes a data URI apart: the extension for its image type, and the text of
/// its data.
pub fn parse_data_uri(data_uri: &str) -> (r: Result<(String, String), String>)
    ensures
        match r {
            Ok(parts) => uri_parts(data_uri@) == Ok::<(Seq<char>, Seq<char>), Seq<char>>(
                (parts.0@, parts.1@),
            ),
            Err(why) => uri_parts(data_uri@) == Err::<(Seq<char>, Seq<char>), Seq<char>>(why@),
        },
{
    let uri = chars_of(data_uri);
    assert(uri@.skip(0) == uri@);
    let comma = match find_char(&uri, 0, ',') {
        Some(at) => at,
        None => {
            return Err(String::from_str("Invalid Data URI format (missing data)"));
        },
    };
    let mut prefix: Vec<char> = Vec::new();
    let mut i: usize = 0;
    while i < comma
        invariant
            i <= comma <= uri.len(),
            prefix@ == uri@.take(i as int),
        decreases comma - i,
    {
        prefix.push(uri[i]);
        assert(uri@.take(i + 1) == uri@.take(i as int).push(uri@[i as int]));
        i += 1;
    }
    assert(prefix@.skip(0) == prefix@);
    let end = match find_char(&prefix, 0, ';') {
        Some(at) => at,
        None => prefix.len(),
    };
    let mut head: Vec<char> = Vec::new();
    let mut j: usize = 0;
    while j < end
        invariant
            j <= end <= prefix.len(),
            head@ == prefix@.take(j as int),
        decreases end - j,
    {
        head.push(prefix[j]);
        assert(prefix@.take(j + 1) == prefix@.take(j as int).push(prefix@[j as int]));
        j += 1;
    }
    assert(prefix@.take(prefix.len() as int) == prefix@);
    assert(head@ == before_parameters(prefix@));
    let lead = chars_of("data:");
    if !starts_with(&head, &lead) {
        return Err(String::from_str("Invalid Data URI format (missing 'data:' or ';')"));
    }
    let mut mime: Vec<char> = Vec::new();
    let mut k: usize = lead.len();
    while k < head.len()
        invariant
            lead.len() <= k <= head.len(),
            mime@ == head@.subrange(lead.len() as int, k as int),
        decreases head.len() - k,
    {
        mime.push(head[k]);
        k += 1;
    }
    assert(mime@ == head@.skip("data:"@.len() as int));
    match extension_for(&mime) {
        Some(extension) => {
            let mut data = String::new();
            append_chars(&mut data, &uri, comma + 1, uri.len());
            assert(data@ == uri@.skip(comma + 1));
            Ok((String::from_str(extension), data))
        },
        None => {
            let mut why = String::from_str("Unsupported image MIME type: ");
            append_chars(&mut why, &mime, 0, mime.len());
            assert(mime@.subrange(0, mime.len() as int) == mime@);
            Err(why)
        },
    }
}

/// The image of a data URI whose extension is `extension`, given what came
/// of decoding its data.
pub open spec fn image_of(decoded: Result<Seq<u8>, Seq<char>>, extension: Seq<char>) -> Result<
    (Seq<u8>, Seq<char>),
    Seq<char>,
> {
    match decoded {
        Ok(bytes) => Ok((bytes, extension)),
        Err(why) => Err("Base64 decoding failed: "@ + why),
    }
}

/// The image of a data URI whose extension is `extension`, given what came
/// of decoding its data: the bytes with the extension, or why there are no
/// bytes.
pub fn image_from(decoded: Result<Vec<u8>, String>, extension: String) -> (r: Result<
    (Vec<u8>, String),
    String,
>)
    ensures
        match r {
            Ok(image) => decoded is Ok && image_of(Ok(decoded->Ok_0@), extension@) == Ok::<
                (Seq<u8>, Seq<char>),
                Seq<char>,
            >((image.0@, image.1@)),
            Err(why) => decoded is Err && image_of(Err(decoded->Err_0@), extension@) == Err::<
                (Seq<u8>, Seq<char>),
                Seq<char>,
            >(why@),
        },
{
    match decoded {
        Ok(bytes) => Ok((bytes, extension)),
        Err(e) => {
            let mut why = String::from_str("Base64 decoding failed: ");
            why.append(e.as_str());
            Err(why)
        },
    }
}

/// Reads the image that a data URI holds: its bytes and the extension to
/// keep it under.
pub fn decode_base64_image(data_uri: &str) -> (r: Result<(Vec<u8>, String), String>)
    ensures
        match r {
            Ok(image) => uri_image(data_uri@) == Ok::<(Seq<u8>, Seq<char>), Seq<char>>(
                (image.0@, image.1@),
            ),
            Err(why) => uri_image(data_uri@) == Err::<(Seq<u8>, Seq<char>), Seq<char>>(why@),
        },
{
    match parse_data_uri(data_uri) {
        Ok((extension, data)) => image_from(decode_base64(data.as_str()), extension),
        Err(why) => Err(why),
    }
}

/// The bytes of a presentation that arrives as base64 text, or why it
/// cannot be read.
pub open spec fn presentation_bytes(text: Seq<char>) -> Result<Seq<u8>, Seq<char>> {
    match base64_decoded(text) {
        Ok(bytes) => Ok(bytes),
        Err(why) => Err("Failed to decode base64 PPTX data: "@ + why),
    }
}

/// The bytes of a presentation, given what came of decoding its text.
pub open spec fn presentation_of(decoded: Result<Seq<u8>, Seq<char>>) -> Result<
    Seq<u8>,
    Seq<char>,
> {
    match decoded {
        Ok(bytes) => Ok(bytes),
        Err(why) => Err("Failed to decode base64 PPTX data: "@ + why),
    }
}

/// The bytes of a presentation, given what came of decoding its text, or
/// why there are none.
pub fn pptx_from(decoded: Result<Vec<u8>, String>) -> (r: Result<Vec<u8>, String>)
    ensures
        match r {
            Ok(bytes) => decoded is Ok && presentation_of(Ok(decoded->Ok_0@)) == Ok::<
                Seq<u8>,
                Seq<char>,
            >(bytes@),
            Err(why) => decoded is Err && presentation_of(Err(decoded->Err_0@)) == Err::<
                Seq<u8>,
                Seq<char>,
            >(why@),
        },
{
    match decoded {
        Ok(bytes) => Ok(bytes),
        Err(e) => {
            let mut why = String::from_str("Failed to decode base64 PPTX data: ");
            why.append(e.as_str());
            Err(why)
        },
    }
}

/// Reads the bytes of a presentation from base64 text.
pub fn decode_pptx(pptx_base64: &str) -> (r: Result<Vec<u8>, String>)
    ensures
        match r {
            Ok(bytes) => presentation_bytes(pptx_base64@) == Ok::<Seq<u8>, Seq<char>>(bytes@),
            Err(why) => presentation_bytes(pptx_base64@) == Err::<Seq<u8>, Seq<char>>(why@),
        },
{
    pptx_from(decode_base64(pptx_base64))
}

/// The phases that a showcase goes through are numbered 1 to 4.
pub open spec fn valid_phase(phase: i32) -> bool {
    1 <= phase <= 4
}

/// Whether `phase` is a phase of a showcase.
pub fn is_valid_phase(phase: i32) -> (r: bool)
    ensures
        r == valid_phase(phase),
{
    1 <= phase && phase <= 4
}

/// The file of the image that a showcase keeps for a message.
pub open spec fn image_file_name(showcase: Seq<char>, message: Seq<char>, extension: Seq<char>)
    -> Seq<char> {
    showcase + "_"@ + message + "."@ + extension
}

/// The file of the presentation of a showcase.
pub open spec fn presentation_file_name(showcase: Seq<char>) -> Seq<char> {
    "showcase_"@ + showcase + ".pptx"@
}

/// Where the presentation of a showcase lies below the data of the
/// application.
pub open spec fn presentation_path(showcase: Seq<char>) -> Seq<char> {
    "presentations/"@ + showcase + "/"@ + presentation_file_name(showcase)
}

/// The file of the image that showcase `id` keeps for a message.
pub fn showcase_image_file_name(id: &str, message_id: &str, extension: &str) -> (name: String)
    ensures
        name@ == image_file_name(id@, message_id@, extension@),
{
    let mut name = String::from_str(id);
    name.append("_");
    name.append(message_id);
    name.append(".");
    name.append(extension);
    name
}

/// The file of the presentation of showcase `id`.
pub fn pptx_file_name(id: &str) -> (name: String)
    ensures
        name@ == presentation_file_name(id@),
{
    let mut name = String::from_str("showcase_");
    name.append(id);
    name.append(".pptx");
    name
}

/// Where the presentation of showcase `id` lies below the data of the
/// application.
pub fn pptx_relative_path(id: &str) -> (path: String)
    ensures
        path@ == presentation_path(id@),
{
    let mut path = String::from_str("presentations/");
    path.append(id);
    path.append("/");
    path.append(pptx_file_name(id).as_str());
    assert(path@ == presentation_path(id@));
    path
}

/// Whether a stored text holds a value: it does not where it is empty or
/// `null`.
pub open spec fn holds_value(text: Seq<char>) -> bool {
    text.len() > 0 && text != "null"@
}

/// Whether a stored text holds a value.
pub fn has_value(text: &str) -> (r: bool)
    ensures
        r == holds_value(text@),
{
    let chars = chars_of(text);
    chars.len() > 0 && !same_chars(&chars, &chars_of("null"))
}

/// Whether a stored text holds a value once the white space around it is
/// taken off.
pub fn has_value_trimmed(text: &str) -> (r: bool)
    ensures
        r == holds_value(trimmed(text@)),
{
    let chars = trim_chars(&chars_of(text));
    chars.len() > 0 && !same_chars(&chars, &chars_of("null"))
}

/// The place of the first of `ids` that is `id`.
pub open spec fn first_place(ids: Seq<Seq<char>>, id: Seq<char>) -> Option<int>
    decreases ids.len(),
{
    if ids.len() == 0 {
        None
    } else if ids.first() == id {
        Some(0int)
    } else {
        match first_place(ids.drop_first(), id) {
            Some(at) => Some(at + 1),
            None => None,
        }
    }
}

/// Where the image of message `id` stands among the images of a showcase,
/// whose messages are `ids`: the place to replace, or none where the image
/// is to be added.
pub fn position_of(ids: &Vec<String>, id: &str) -> (r: Option<usize>)
    ensures
        match r {
            Some(at) => first_place(ids.deep_view(), id@) == Some(at as int),
            None => first_place(ids.deep_view(), id@) is None,
        },
{
    let wanted = chars_of(id);
    let ghost all = ids.deep_view();
    let mut i: usize = 0;
    assert(all.skip(0) == all);
    while i < ids.len()
        invariant
            i <= ids.len(),
            all == ids.deep_view(),
            wanted@ == id@,
            first_place(all, id@) == (match first_place(all.skip(i as int), id@) {
                Some(at) => Some(at + i),
                None => None,
            }),
        decreases ids.len() - i,
    {
        assert(all.skip(i as int).first() == ids@[i as int]@);
        if same_chars(&chars_of(ids[i].as_str()), &wanted) {
            return Some(i);
        }
        assert(all.skip(i as int).drop_first() == all.skip(i + 1));
        i += 1;
    }
    None
}

/// A value bound to a statement.
#[derive(Debug)]
pub enum SqlValue {
    Text(String),
    Integer(i64),
}

/// The mathematical value of a [`SqlValue`].
#[verifier::ext_equal]
pub enum SqlValueView {
    Text(Seq<char>),
    Integer(i64),
}

impl View for SqlValue {
    type V = SqlValueView;

    open spec fn view(&self) -> SqlValueView {
        match self {
            SqlValue::Text(t) => SqlValueView::Text(t@),
            SqlValue::Integer(n) => SqlValueView::Integer(*n),
        }
    }
}

impl DeepView for SqlValue {
    type V = SqlValueView;

    open spec fn deep_view(&self) -> SqlValueView {
        self@
    }
}

/// One column set by an update if the change is asked for.
pub open spec fn asked(column: Seq<char>, change: Option<Seq<char>>) -> Seq<(
    Seq<char>,
    SqlValueView,
)> {
    match change {
        Some(text) => seq![(column, SqlValueView::Text(text))],
        None => Seq::empty(),
    }
}

/// The columns that an update sets by request, with their new values: title,
/// description and status, each only if it is asked for.
pub open spec fn requested(
    title: Option<Seq<char>>,
    description: Option<Seq<char>>,
    status: Option<Seq<char>>,
) -> Seq<(Seq<char>, SqlValueView)> {
    asked("title"@, title) + asked("description"@, description) + asked("status"@, status)
}

/// The text that sets `columns`, each from a parameter.
pub open spec fn assignments(columns: Seq<(Seq<char>, SqlValueView)>) -> Seq<char>
    decreases columns.len(),
{
    if columns.len() == 0 {
        Seq::empty()
    } else if columns.len() == 1 {
        columns[0].0 + " = ?"@
    } else {
        assignments(columns.drop_last()) + ", "@ + columns.last().0 + " = ?"@
    }
}

/// The values of `columns`, in order.
pub open spec fn values_of(columns: Seq<(Seq<char>, SqlValueView)>) -> Seq<SqlValueView> {
    Seq::new(columns.len(), |i: int| columns[i].1)
}

/// The statement that updates a showcase and its parameters, in order: the
/// columns asked for, the time of the change, and last the showcase, whose
/// parameter is named by its number. Where no change is asked for there is
/// no statement.
pub open spec fn update_of(
    id: Seq<char>,
    title: Option<Seq<char>>,
    description: Option<Seq<char>>,
    status: Option<Seq<char>>,
    now: i64,
) -> Option<(Seq<char>, Seq<SqlValueView>)> {
    let asked_for = requested(title, description, status);
    if asked_for.len() == 0 {
        None
    } else {
        let columns = asked_for.push(("last_modified"@, SqlValueView::Integer(now)));
        Some(
            (
                "UPDATE showcases SET "@ + assignments(columns) + " WHERE id = ?"@ + decimal(
                    columns.len() + 1,
                ),
                values_of(columns).push(SqlValueView::Text(id)),
            ),
        )
    }
}

/// Adds the assignment of one more column to the statement, and its value
/// to the parameters.
fn set_column(
    sql: &mut String,
    values: &mut Vec<SqlValue>,
    column: &str,
    value: SqlValue,
    Ghost(columns): Ghost<Seq<(Seq<char>, SqlValueView)>>,
    Ghost(lead): Ghost<Seq<char>>,
)
    requires
        old(sql)@ == lead + assignments(columns),
        old(values).deep_view() == values_of(columns),
    ensures
        final(sql)@ == lead + assignments(columns.push((column@, value@))),
        final(values).deep_view() == values_of(columns.push((column@, value@))),
{
    let ghost more = columns.push((column@, value@));
    assert(more.drop_last() == columns);
    if values.len() > 0 {
        sql.append(", ");
    }
    sql.append(column);
    sql.append(" = ?");
    let ghost before = values.deep_view();
    values.push(value);
    assert(values.deep_view() == before.push(value@));
    assert(values.deep_view() == values_of(more));
    assert(sql@ == lead + assignments(more));
}

/// The statement that updates the title, description and status of showcase
/// `id` as far as `payload` asks for it, with its parameters; none where
/// `payload` asks for nothing.
pub fn update_statement(id: &str, payload: UpdateShowcasePayload, now: i64) -> (r: Option<
    (String, Vec<SqlValue>),
>)
    ensures
        match r {
            Some(update) => update_of(
                id@,
                payload.title.deep_view(),
                payload.description.deep_view(),
                payload.status.deep_view(),
                now,
            ) == Some((update.0@, update.1.deep_view())),
            None => update_of(
                id@,
                payload.title.deep_view(),
                payload.description.deep_view(),
                payload.status.deep_view(),
                now,
            ) is None,
        },
{
    let mut sql = String::from_str("UPDATE showcases SET ");
    let mut values: Vec<SqlValue> = Vec::new();
    let ghost lead = "UPDATE showcases SET "@;
    let ghost mut columns: Seq<(Seq<char>, SqlValueView)> = Seq::empty();
    let ghost wanted = requested(
        payload.title.deep_view(),
        payload.description.deep_view(),
        payload.status.deep_view(),
    );
    assert(sql@ == lead + assignments(columns));
    assert(values.deep_view() == values_of(columns));
    match payload.title {
        Some(title) => {
            set_column(
                &mut sql,
                &mut values,
                "title",
                SqlValue::Text(title),
                Ghost(columns),
                Ghost(lead),
            );
            proof {
                columns = columns.push(("title"@, SqlValueView::Text(title@)));
            }
        },
        None => {},
    }
    assert(columns == asked("title"@, payload.title.deep_view()));
    match payload.description {
        Some(description) => {
            set_column(
                &mut sql,
                &mut values,
                "description",
                SqlValue::Text(description),
                Ghost(columns),
                Ghost(lead),
            );
            proof {
                columns = columns.push(("description"@, SqlValueView::Text(description@)));
            }
        },
        None => {},
    }
    assert(columns == asked("title"@, payload.title.deep_view()) + asked(
        "description"@,
        payload.description.deep_view(),
    ));
    match payload.status {
        Some(status) => {
            set_column(
                &mut sql,
                &mut values,
                "status",
                SqlValue::Text(status),
                Ghost(columns),
                Ghost(lead),
            );
            proof {
                columns = columns.push(("status"@, SqlValueView::Text(status@)));
            }
        },
        None => {},
    }
    assert(columns == wanted);
    assert(values.deep_view().len() == columns.len());
    if values.len() == 0 {
        return None;
    }
    set_column(
        &mut sql,
        &mut values,
        "last_modified",
        SqlValue::Integer(now),
        Ghost(columns),
        Ghost(lead),
    );
    proof {
        columns = columns.push(("last_modified"@, SqlValueView::Integer(now)));
    }
    let ghost before = values.deep_view();
    values.push(SqlValue::Text(String::from_str(id)));
    assert(values.deep_view() == before.push(SqlValueView::Text(id@)));
    sql.append(" WHERE id = ?");
    append_decimal(&mut sql, values.len() as u64);
    Some((sql, values))
}

} // verus!
