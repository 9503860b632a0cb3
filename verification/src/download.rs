//! Where a fetched attachment is kept: a file name that the message and the
//! attachment determine, and the path recorded for it.

use crate::text::{
    all_digits, append_chars, append_decimal, chars_of, decimal, is_digit, last_index_of,
    lemma_decimal_digits, lemma_decimal_injective, lemma_last_index_of, rfind_char, split,
    split_chars, texts,
};
use vstd::prelude::*;
use vstd::string::StringExecFns;

verus! {

/// A path component that names nothing: an empty one or `.`.
pub open spec fn skipped_component(part: Seq<char>) -> bool {
    part.len() == 0 || part == seq!['.']
}

/// The last of `parts` that names something.
pub open spec fn last_named(parts: Seq<Seq<char>>) -> Option<Seq<char>>
    decreases parts.len(),
{
    if parts.len() == 0 {
        None
    } else if skipped_component(parts.last()) {
        last_named(parts.drop_last())
    } else {
        Some(parts.last())
    }
}

/// The file name in `path`: its last component between `/` that is neither
/// empty nor `.`, unless that component is `..`.
pub open spec fn file_name_of(path: Seq<char>) -> Option<Seq<char>> {
    match last_named(split(path, '/')) {
        Some(name) => if name == seq!['.', '.'] {
            None
        } else {
            Some(name)
        },
        None => None,
    }
}

/// The extension of a file name: what follows its last `.`, where that dot
/// is not the first character.
pub open spec fn extension_of_name(name: Seq<char>) -> Option<Seq<char>> {
    let dot = last_index_of(name, '.');
    if dot <= 0 {
        None
    } else {
        Some(name.skip(dot + 1))
    }
}

/// The extension of the file that `path` names.
pub open spec fn extension_of(path: Seq<char>) -> Option<Seq<char>> {
    match file_name_of(path) {
        Some(name) => extension_of_name(name),
        None => None,
    }
}

/// The extension under which an attachment is kept: its own, or `png`.
pub open spec fn kept_extension(filename: Seq<char>) -> Seq<char> {
    match extension_of(filename) {
        Some(e) => e,
        None => "png"@,
    }
}

/// The local file name of an attachment:
/// message identifier, `_`, attachment identifier, `.`, extension.
pub open spec fn local_name(message_id: u64, attachment_id: u64, filename: Seq<char>) -> Seq<
    char,
> {
    decimal(message_id as nat) + "_"@ + decimal(attachment_id as nat) + "."@ + kept_extension(
        filename,
    )
}

/// The path recorded in storage for a file of the cache.
pub open spec fn recorded_path(name: Seq<char>) -> Seq<char> {
    "cached/"@ + name
}

/// The extension of the file that `filename` names, if it has one.
pub fn file_extension(filename: &str) -> (r: Option<String>)
    ensures
        r.deep_view() == extension_of(filename@),
{
    let chars = chars_of(filename);
    let parts = split_chars(&chars, '/');
    let mut i: usize = parts.len();
    assert(texts(parts@).take(i as int) == texts(parts@));
    while i > 0 && (parts[i - 1].len() == 0 || (parts[i - 1].len() == 1 && parts[i - 1][0] == '.'))
        invariant
            i <= parts.len(),
            last_named(texts(parts@)) == last_named(texts(parts@).take(i as int)),
        decreases i,
    {
        proof {
            let shown = texts(parts@).take(i as int);
            assert(shown.last() == parts@[i - 1]@);
            assert(parts@[i - 1]@.len() == 1 ==> parts@[i - 1]@ =~= seq!['.']);
            assert(shown.drop_last() == texts(parts@).take(i - 1));
        }
        i -= 1;
    }
    if i == 0 {
        return None;
    }
    let name = &parts[i - 1];
    proof {
        let shown = texts(parts@).take(i as int);
        assert(shown.last() == name@);
        assert(seq!['.'].len() == 1 && seq!['.'][0] == '.');
        assert(!skipped_component(name@));
        assert(last_named(split(filename@, '/')) == Some(name@));
    }
    if name.len() == 2 && name[0] == '.' && name[1] == '.' {
        assert(name@ =~= seq!['.', '.']);
        return None;
    }
    assert(name@ != seq!['.', '.']) by {
        if name@ == seq!['.', '.'] {
            assert(seq!['.', '.'].len() == 2 && seq!['.', '.'][0] == '.' && seq!['.', '.'][1]
                == '.');
        }
    }
    assert(name@.take(name.len() as int) == name@);
    match rfind_char(name, name.len(), '.') {
        Some(dot) => {
            if dot == 0 {
                None
            } else {
                proof {
                    lemma_last_index_of(name@, '.');
                }
                let mut ext = String::new();
                append_chars(&mut ext, name, dot + 1, name.len());
                assert(ext@ == name@.skip(dot + 1));
                Some(ext)
            }
        },
        None => None,
    }
}

/// The local file name of an attachment. The same message, attachment and
/// name always give the same file.
pub fn local_file_name(message_id: u64, attachment_id: u64, filename: &str) -> (name: String)
    ensures
        name@ == local_name(message_id, attachment_id, filename@),
{
    let mut name = String::new();
    append_decimal(&mut name, message_id);
    name.append("_");
    append_decimal(&mut name, attachment_id);
    name.append(".");
    match file_extension(filename) {
        Some(e) => name.append(e.as_str()),
        None => name.append("png"),
    }
    assert(name@ == local_name(message_id, attachment_id, filename@));
    name
}

/// The path recorded in storage for the cached file `name`.
pub fn relative_path(name: &str) -> (path: String)
    ensures
        path@ == recorded_path(name@),
{
    let mut path = String::from_str("cached/");
    path.append(name);
    path
}

/// Digits followed by something that is no digit can be read in one way
/// only.
pub proof fn lemma_digits_end(a: Seq<char>, rest_a: Seq<char>, b: Seq<char>, rest_b: Seq<char>)
    requires
        a + rest_a == b + rest_b,
        all_digits(a),
        all_digits(b),
        rest_a.len() > 0 && !is_digit(rest_a[0]),
        rest_b.len() > 0 && !is_digit(rest_b[0]),
    ensures
        a == b,
        rest_a == rest_b,
{
    let whole = a + rest_a;
    if a.len() < b.len() {
        assert(whole[a.len() as int] == rest_a[0]);
        assert((b + rest_b)[a.len() as int] == b[a.len() as int]);
    }
    if b.len() < a.len() {
        assert((b + rest_b)[b.len() as int] == rest_b[0]);
        assert(whole[b.len() as int] == a[b.len() as int]);
    }
    assert(a == whole.take(a.len() as int));
    assert(b == (b + rest_b).take(b.len() as int));
    assert(rest_a == whole.skip(a.len() as int));
    assert(rest_b == (b + rest_b).skip(b.len() as int));
}

/// Two attachments share a file in the cache only if they are the same
/// attachment of the same message: the name of the file tells the message
/// and the attachment.
pub proof fn lemma_local_name_tells_attachment(
    message_a: u64,
    attachment_a: u64,
    filename_a: Seq<char>,
    message_b: u64,
    attachment_b: u64,
    filename_b: Seq<char>,
)
    requires
        local_name(message_a, attachment_a, filename_a) == local_name(
            message_b,
            attachment_b,
            filename_b,
        ),
    ensures
        message_a == message_b,
        attachment_a == attachment_b,
{
    reveal_strlit("_");
    reveal_strlit(".");
    let tail_a = decimal(attachment_a as nat) + "."@ + kept_extension(filename_a);
    let tail_b = decimal(attachment_b as nat) + "."@ + kept_extension(filename_b);
    lemma_decimal_digits(message_a as nat);
    lemma_decimal_digits(message_b as nat);
    lemma_decimal_digits(attachment_a as nat);
    lemma_decimal_digits(attachment_b as nat);
    assert(local_name(message_a, attachment_a, filename_a) == decimal(message_a as nat) + ("_"@
        + tail_a));
    assert(local_name(message_b, attachment_b, filename_b) == decimal(message_b as nat) + ("_"@
        + tail_b));
    lemma_digits_end(
        decimal(message_a as nat),
        "_"@ + tail_a,
        decimal(message_b as nat),
        "_"@ + tail_b,
    );
    lemma_decimal_injective(message_a as nat, message_b as nat);
    assert(tail_a == ("_"@ + tail_a).skip(1));
    assert(tail_b == ("_"@ + tail_b).skip(1));
    assert(tail_a == decimal(attachment_a as nat) + ("."@ + kept_extension(filename_a)));
    assert(tail_b == decimal(attachment_b as nat) + ("."@ + kept_extension(filename_b)));
    lemma_digits_end(
        decimal(attachment_a as nat),
        "."@ + kept_extension(filename_a),
        decimal(attachment_b as nat),
        "."@ + kept_extension(filename_b),
    );
    lemma_decimal_injective(attachment_a as nat, attachment_b as nat);
}

/// Whether a status with which the remote service answers a fetch says
/// that the fetch went well: the statuses 200 to 299. With any other the
/// attachment counts as not fetched.
pub open spec fn success_status(code: u16) -> bool {
    200 <= code <= 299
}

/// Whether the fetch of an attachment that was answered with the status
/// `code` went well.
pub fn is_success_status(code: u16) -> (r: bool)
    ensures
        r == (200 <= code <= 299),
        r == success_status(code),
{
    200 <= code && code <= 299
}

} // verus!
