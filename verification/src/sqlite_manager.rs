//! The rules around the store of the application: how sizes are shown, which
//! stored texts hold a list, and what a cleanup and a schema update do.

use crate::download::{extension_of, file_extension};
use crate::models::{IndexedMessage, StorageUsage};
use crate::showcase_manager::{has_value, holds_value};
use crate::text::{
    append_decimal, chars_of, contains, contains_text, decimal, digit_char, push_digit, texts,
};
use vstd::prelude::*;
use vstd::string::StringExecFns;

verus! {

pub const KB: u64 = 1024;

pub const MB: u64 = 1048576;

pub const GB: u64 = 1073741824;

/// `n` rounded to a multiple of `step`, a tie going to the even multiple.
pub open spec fn nearest_even(n: nat, step: nat) -> nat {
    let down = n / step;
    let rest = n % step;
    if 2 * rest > step || (2 * rest == step && down % 2 == 1) {
        (down + 1) * step
    } else {
        down * step
    }
}

/// The distance between neighbouring double-precision numbers at `n`: 1 up
/// to 2^53, and twice as much after each further power of two.
pub open spec fn double_spacing(n: nat) -> nat
    decreases n,
{
    if n < 0x20_0000_0000_0000 {
        1
    } else {
        2 * double_spacing(n / 2)
    }
}

/// The double-precision number nearest to `n`.
pub open spec fn as_double(n: nat) -> nat {
    nearest_even(n, double_spacing(n))
}

/// A size in hundredths of `unit`: the nearest double to the number of
/// bytes, divided by the unit and rounded to two decimals, a tie going to
/// the even hundredth.
pub open spec fn hundredths(bytes: nat, unit: nat) -> nat {
    nearest_even(as_double(bytes) * 100, unit) / unit
}

/// A number of hundredths written with two decimals.
pub open spec fn two_decimals(h: nat) -> Seq<char> {
    decimal(h / 100) + "."@ + seq![digit_char((h % 100) / 10), digit_char(h % 10)]
}

/// A size as it is shown: in the largest of GB, MB and KB that it reaches,
/// with two decimals, or in whole bytes below that.
pub open spec fn shown_size(bytes: u64) -> Seq<char> {
    if bytes >= GB {
        two_decimals(hundredths(bytes as nat, GB as nat)) + " GB"@
    } else if bytes >= MB {
        two_decimals(hundredths(bytes as nat, MB as nat)) + " MB"@
    } else if bytes >= KB {
        two_decimals(hundredths(bytes as nat, KB as nat)) + " KB"@
    } else {
        decimal(bytes as nat) + " bytes"@
    }
}

/// `n` rounded to a multiple of `step`, a tie going to the even multiple.
fn round_to_even(n: u128, step: u128) -> (r: u128)
    requires
        step > 0,
        n + step <= u128::MAX,
    ensures
        r == nearest_even(n as nat, step as nat),
        r <= n + step,
        (r / step) * step <= r,
{
    let down = n / step;
    let rest = n % step;
    assert(down * step <= n) by (nonlinear_arith)
        requires
            down == n / step,
            step > 0,
    ;
    assert((down + 1) * step == down * step + step) by (nonlinear_arith);
    let r = if rest > step - rest || (rest == step - rest && down % 2 == 1) {
        (down + 1) * step
    } else {
        down * step
    };
    assert((r / step) * step <= r) by (nonlinear_arith)
        requires
            step > 0,
    ;
    r
}

/// The double-precision number nearest to `bytes`.
fn nearest_double(bytes: u64) -> (r: u128)
    ensures
        r == as_double(bytes as nat),
        r <= bytes + 0x1000,
{
    let mut step: u64 = 1;
    let mut top: u64 = bytes;
    while top >= 0x20_0000_0000_0000
        invariant
            double_spacing(bytes as nat) == step * double_spacing(top as nat),
            1 <= step < 0x1000,
            top * step <= bytes,
        decreases top,
    {
        assert(step < 0x800) by (nonlinear_arith)
            requires
                top >= 0x20_0000_0000_0000,
                top * step <= 0xffff_ffff_ffff_ffff,
                step >= 1,
        ;
        assert((top / 2) * (step * 2) <= top * step) by (nonlinear_arith)
            requires
                step >= 1,
        ;
        assert(step * (2 * double_spacing((top / 2) as nat)) == (step * 2) * double_spacing(
            (top / 2) as nat,
        )) by (nonlinear_arith);
        top = top / 2;
        step = step * 2;
    }
    assert(double_spacing(bytes as nat) == step) by (nonlinear_arith)
        requires
            double_spacing(bytes as nat) == step * double_spacing(top as nat),
            double_spacing(top as nat) == 1,
    ;
    round_to_even(bytes as u128, step as u128)
}

/// Appends the size `bytes` in the given unit, with two decimals.
fn append_in_unit(out: &mut String, bytes: u64, unit: u64)
    requires
        unit == KB || unit == MB || unit == GB,
    ensures
        final(out)@ == old(out)@ + two_decimals(hundredths(bytes as nat, unit as nat)),
{
    let double = nearest_double(bytes);
    let scaled: u128 = double * 100;
    let wide: u128 = unit as u128;
    let rounded = round_to_even(scaled, wide);
    let h = rounded / wide;
    assert(h * 1024 <= rounded) by (nonlinear_arith)
        requires
            h * wide <= rounded,
            wide >= 1024,
            h >= 0,
    ;
    let whole: u64 = (h / 100) as u64;
    append_decimal(out, whole);
    out.append(".");
    push_digit(out, ((h % 100) / 10) as u8);
    push_digit(out, (h % 10) as u8);
    assert(final(out)@ == old(out)@ + two_decimals(h as nat));
}

/// Writes a size for the reader: `1.50 KB`, `2.00 GB`, `512 bytes`.
pub fn format_bytes(bytes: u64) -> (text: String)
    ensures
        text@ == shown_size(bytes),
{
    let mut text = String::new();
    if bytes >= GB {
        append_in_unit(&mut text, bytes, GB);
        text.append(" GB");
    } else if bytes >= MB {
        append_in_unit(&mut text, bytes, MB);
        text.append(" MB");
    } else if bytes >= KB {
        append_in_unit(&mut text, bytes, KB);
        text.append(" KB");
    } else {
        append_decimal(&mut text, bytes);
        text.append(" bytes");
    }
    assert(text@ == shown_size(bytes));
    text
}

/// What `serde_json` reads from a text as a list of strings: the list, or
/// the text of the error.
pub uninterp spec fn strings_of_json(text: Seq<char>) -> Result<Seq<Seq<char>>, Seq<char>>;

/// `serde_json::from_str` with a list of strings as its target. An error is
/// handed on as its text (`to_string` of `serde_json::Error`).
#[verifier::external_body]
pub(crate) fn json_to_strings(text: &str) -> (r: Result<Vec<String>, String>)
    ensures
        match r {
            Ok(items) => strings_of_json(text@) == Ok::<Seq<Seq<char>>, Seq<char>>(
                items.deep_view(),
            ),
            Err(why) => strings_of_json(text@) == Err::<Seq<Seq<char>>, Seq<char>>(why@),
        },
{
    match serde_json::from_str::<Vec<String>>(text) {
        Ok(items) => Ok(items),
        Err(e) => Err(e.to_string()),
    }
}

/// The recorded paths that a stored text holds: none where the store holds
/// no text, an empty one or `null`, else what the text holds as JSON.
pub open spec fn stored_paths(text: Option<Seq<char>>) -> Result<Seq<Seq<char>>, Seq<char>> {
    match text {
        Some(t) => if holds_value(t) {
            strings_of_json(t)
        } else {
            Ok(Seq::empty())
        },
        None => Ok(Seq::empty()),
    }
}

/// The recorded paths of a stored message, read from the text of its
/// column.
pub fn stored_attachments(text: Option<&str>) -> (r: Result<Vec<String>, String>)
    ensures
        match r {
            Ok(paths) => stored_paths(
                match text {
                    Some(t) => Some(t@),
                    None => None,
                },
            ) == Ok::<Seq<Seq<char>>, Seq<char>>(paths.deep_view()),
            Err(why) => stored_paths(
                match text {
                    Some(t) => Some(t@),
                    None => None,
                },
            ) == Err::<Seq<Seq<char>>, Seq<char>>(why@),
        },
{
    match text {
        Some(t) => {
            if has_value(t) {
                json_to_strings(t)
            } else {
                let none: Vec<String> = Vec::new();
                assert(none.deep_view() == Seq::<Seq<char>>::empty());
                Ok(none)
            }
        },
        None => {
            let none: Vec<String> = Vec::new();
            assert(none.deep_view() == Seq::<Seq<char>>::empty());
            Ok(none)
        },
    }
}

/// The files to remove with a stored message: its recorded paths, or none
/// where they cannot be read.
pub fn files_of_message(text: Option<&str>) -> (paths: Vec<String>)
    ensures
        paths.deep_view() == (match stored_paths(
            match text {
                Some(t) => Some(t@),
                None => None,
            },
        ) {
            Ok(p) => p,
            Err(_) => Seq::empty(),
        }),
{
    match stored_attachments(text) {
        Ok(paths) => paths,
        Err(_) => {
            let none: Vec<String> = Vec::new();
            assert(none.deep_view() == Seq::<Seq<char>>::empty());
            none
        },
    }
}

/// How long a message that no showcase uses is kept, in seconds: 30 days.
pub const RETENTION_SECONDS: i64 = 2592000;

/// The timestamp before which a cleanup removes messages, where the clock
/// reads `now`; none where that lies before all time that can be written.
pub fn cleanup_threshold(now: i64) -> (r: Option<i64>)
    ensures
        r is Some <==> now - RETENTION_SECONDS >= i64::MIN,
        r matches Some(t) ==> t == now - RETENTION_SECONDS,
{
    now.checked_sub(RETENTION_SECONDS)
}

/// `count` question marks with commas between them.
pub open spec fn placeholders(count: nat) -> Seq<char>
    decreases count,
{
    if count == 0 {
        Seq::empty()
    } else if count == 1 {
        "?"@
    } else {
        placeholders((count - 1) as nat) + ","@ + "?"@
    }
}

/// The statement that removes `count` messages by their identifiers.
pub open spec fn removal_of(count: nat) -> Seq<char> {
    "DELETE FROM messages WHERE message_id IN ("@ + placeholders(count) + ")"@
}

/// The statement that removes `count` messages, with one parameter for the
/// identifier of each.
pub fn delete_statement(count: usize) -> (sql: String)
    ensures
        sql@ == removal_of(count as nat),
{
    let mut sql = String::from_str("DELETE FROM messages WHERE message_id IN (");
    let ghost lead = sql@;
    let mut i: usize = 0;
    while i < count
        invariant
            i <= count,
            sql@ == lead + placeholders(i as nat),
        decreases count - i,
    {
        if i > 0 {
            sql.append(",");
        }
        sql.append("?");
        i += 1;
    }
    sql.append(")");
    sql
}

/// Whether a path names a file below the directory of images and nothing
/// outside it: it holds no `..` and begins with neither `/` nor `\`.
pub open spec fn safe_path(path: Seq<char>) -> bool {
    !contains_text(path, ".."@) && !(path.len() > 0 && (path[0] == '/' || path[0] == '\\'))
}

/// Whether `relative_path` may be read from the directory of images.
pub fn is_safe_relative_path(relative_path: &str) -> (r: bool)
    ensures
        r == safe_path(relative_path@),
{
    let path = chars_of(relative_path);
    if contains(&path, &chars_of("..")) {
        return false;
    }
    !(path.len() > 0 && (path[0] == '/' || path[0] == '\\'))
}

/// What `base64` writes for bytes in the standard alphabet with padding.
pub uninterp spec fn base64_encoded(bytes: Seq<u8>) -> Seq<char>;

/// `base64::Engine::encode` of the engine `general_purpose::STANDARD`.
#[verifier::external_body]
pub(crate) fn encode_base64(bytes: &Vec<u8>) -> (text: String)
    ensures
        text@ == base64_encoded(bytes@),
{
    base64::Engine::encode(&base64::engine::general_purpose::STANDARD, bytes)
}

/// The media type that `mime_guess` gives a file extension, type and
/// subtype only; none where it knows none for the extension. The table
/// belongs to the version of `mime_guess` in use.
pub uninterp spec fn guessed_type(extension: Seq<char>) -> Option<Seq<char>>;

/// `mime_guess::from_ext`, its first guess (`MimeGuess::first`) read with
/// `Mime::essence_str`.
#[verifier::external_body]
pub(crate) fn guess_type(extension: &str) -> (r: Option<String>)
    ensures
        r.deep_view() == guessed_type(extension@),
{
    mime_guess::from_ext(extension).first().map(|m| m.essence_str().to_string())
}

/// The media type under which a cached file is handed out: the one guessed
/// from its extension, or `image/png`.
pub open spec fn media_type_of(path: Seq<char>) -> Seq<char> {
    match extension_of(path) {
        Some(extension) => match guessed_type(extension) {
            Some(t) => t,
            None => "image/png"@,
        },
        None => "image/png"@,
    }
}

/// An image as a data URI.
pub open spec fn data_uri_of(media_type: Seq<char>, encoded: Seq<char>) -> Seq<char> {
    "data:"@ + media_type + ";base64,"@ + encoded
}

/// The media type under which a file is handed out, given what was guessed
/// from its extension: the guess, or `image/png` where there is none.
pub open spec fn guess_or_png(guess: Option<Seq<char>>) -> Seq<char> {
    match guess {
        Some(t) => t,
        None => "image/png"@,
    }
}

/// The media type under which a file is handed out, given what was guessed
/// from its extension.
pub fn media_type_from(guess: Option<String>) -> (r: String)
    ensures
        r@ == guess_or_png(guess.deep_view()),
{
    match guess {
        Some(t) => t,
        None => String::from_str("image/png"),
    }
}

/// The media type under which the cached file at `path` is handed out.
pub fn media_type(path: &str) -> (r: String)
    ensures
        r@ == media_type_of(path@),
{
    match file_extension(path) {
        Some(extension) => media_type_from(guess_type(extension.as_str())),
        None => media_type_from(None),
    }
}

/// A data URI of the given media type around data that is already encoded.
pub fn data_uri(media_type: &str, encoded: &str) -> (uri: String)
    ensures
        uri@ == data_uri_of(media_type@, encoded@),
{
    let mut uri = String::from_str("data:");
    uri.append(media_type);
    uri.append(";base64,");
    uri.append(encoded);
    uri
}

/// The cached image at `relative_path`, whose bytes are `bytes`, as a data
/// URI.
pub fn image_data_uri(relative_path: &str, bytes: &Vec<u8>) -> (uri: String)
    ensures
        uri@ == data_uri_of(media_type_of(relative_path@), base64_encoded(bytes@)),
{
    let kind = media_type(relative_path);
    let encoded = encode_base64(bytes);
    data_uri(kind.as_str(), encoded.as_str())
}

/// What the application keeps on disk, the total being the store and the
/// cache of images together.
pub fn storage_usage(
    database_size_bytes: u64,
    image_cache_size_bytes: u64,
    database_path: String,
    message_count: i64,
    showcase_count: i64,
    protected_message_count: i64,
    cache_file_count: u64,
    oldest_message_date: Option<i64>,
    newest_message_date: Option<i64>,
) -> (usage: StorageUsage)
    requires
        database_size_bytes + image_cache_size_bytes <= u64::MAX,
    ensures
        usage.total_size_bytes == database_size_bytes + image_cache_size_bytes,
        usage.database_size_bytes == database_size_bytes,
        usage.image_cache_size_bytes == image_cache_size_bytes,
        usage.database_path@ == database_path@,
        usage.message_count == message_count,
        usage.showcase_count == showcase_count,
        usage.protected_message_count == protected_message_count,
        usage.cache_file_count == cache_file_count,
        usage.oldest_message_date == oldest_message_date,
        usage.newest_message_date == newest_message_date,
{
    StorageUsage {
        database_size_bytes,
        image_cache_size_bytes,
        total_size_bytes: database_size_bytes + image_cache_size_bytes,
        database_path,
        message_count,
        showcase_count,
        protected_message_count,
        cache_file_count,
        oldest_message_date,
        newest_message_date,
    }
}

/// A stored message as it is read back from the columns of its row, with
/// the recorded paths already read. A message counts as unused where the
/// store does not say.
pub fn indexed_message_with(
    message_id: String,
    channel_id: String,
    author_id: String,
    author_name: String,
    author_avatar: Option<String>,
    message_content: String,
    attachments: Vec<String>,
    timestamp: i64,
    is_used: Option<bool>,
) -> (m: IndexedMessage)
    ensures
        m.attachments.deep_view() == attachments.deep_view(),
        m.message_id@ == message_id@,
        m.channel_id@ == channel_id@,
        m.author_id@ == author_id@,
        m.author_name@ == author_name@,
        m.author_avatar.deep_view() == author_avatar.deep_view(),
        m.message_content@ == message_content@,
        m.timestamp == timestamp,
        m.is_used == (is_used == Some(true)),
{
    IndexedMessage {
        message_id,
        channel_id,
        author_id,
        author_name,
        author_avatar,
        message_content,
        attachments,
        timestamp,
        is_used: match is_used {
            Some(used) => used,
            None => false,
        },
    }
}

/// A stored message as it is read back from the columns of its row. The
/// recorded paths are read from the JSON text of their column; a message
/// counts as unused where the store does not say.
pub fn indexed_message(
    message_id: String,
    channel_id: String,
    author_id: String,
    author_name: String,
    author_avatar: Option<String>,
    message_content: String,
    attachments: Option<&str>,
    timestamp: i64,
    is_used: Option<bool>,
) -> (r: Result<IndexedMessage, String>)
    ensures
        match r {
            Ok(m) => {
                &&& stored_paths(
                    match attachments {
                        Some(t) => Some(t@),
                        None => None,
                    },
                ) == Ok::<Seq<Seq<char>>, Seq<char>>(m.attachments.deep_view())
                &&& m.message_id@ == message_id@
                &&& m.channel_id@ == channel_id@
                &&& m.author_id@ == author_id@
                &&& m.author_name@ == author_name@
                &&& m.author_avatar.deep_view() == author_avatar.deep_view()
                &&& m.message_content@ == message_content@
                &&& m.timestamp == timestamp
                &&& m.is_used == (is_used == Some(true))
            },
            Err(why) => stored_paths(
                match attachments {
                    Some(t) => Some(t@),
                    None => None,
                },
            ) == Err::<Seq<Seq<char>>, Seq<char>>(why@),
        },
{
    match stored_attachments(attachments) {
        Ok(paths) => Ok(
            indexed_message_with(
                message_id,
                channel_id,
                author_id,
                author_name,
                author_avatar,
                message_content,
                paths,
                timestamp,
                is_used,
            ),
        ),
        Err(why) => Err(why),
    }
}

} // verus!
