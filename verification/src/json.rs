//! The listing as a JSON document: an array with one object for each
//! entry.

use crate::entry::{views, EntryView, FileEntry};
use crate::table::flag_text;
use vstd::prelude::*;
use vstd::string::*;

verus! {

/// The error of `serde_json`.
#[verifier::external_type_specification]
#[verifier::external_body]
pub struct ExJsonError(serde_json::Error);

/// What `serde_json::to_string` writes for the text `text`: the text as a
/// JSON string, quoted and escaped.
pub uninterp spec fn json_quoted(text: Seq<char>) -> Seq<char>;

/// The JSON object of an entry, from its four texts as JSON strings and
/// its three flags.
pub open spec fn object_text(
    kind: Seq<char>,
    name: Seq<char>,
    size: Seq<char>,
    modified: Seq<char>,
    read_only: bool,
    hidden: bool,
    is_exec: bool,
) -> Seq<char> {
    "{\"e_type\":"@ + kind + ",\"name\":"@ + name + ",\"len_bytes\":"@ + size + ",\"modified\":"@
        + modified + ",\"read_only\":"@ + flag_text(read_only) + ",\"hidden\":"@ + flag_text(
        hidden,
    ) + ",\"is_exec\":"@ + flag_text(is_exec) + "}"@
}

/// The JSON object of an entry: its kind, name, size and modification
/// time as JSON strings, and its three flags.
pub open spec fn entry_json(entry: EntryView) -> Seq<char> {
    object_text(
        json_quoted(entry.e_type.label()),
        json_quoted(entry.name),
        json_quoted(entry.len_bytes),
        json_quoted(entry.modified),
        entry.read_only,
        entry.hidden,
        entry.is_exec,
    )
}

/// The texts in their order, with a comma between each two.
pub open spec fn joined(objects: Seq<Seq<char>>) -> Seq<char>
    decreases objects.len(),
{
    if objects.len() == 0 {
        Seq::empty()
    } else if objects.len() == 1 {
        objects[0]
    } else {
        joined(objects.drop_last()) + ","@ + objects.last()
    }
}

/// The JSON array of the objects.
pub open spec fn array_text(objects: Seq<Seq<char>>) -> Seq<char> {
    "["@ + joined(objects) + "]"@
}

/// The JSON document of a listing: the array of the objects of its
/// entries, in their order.
pub open spec fn listing_json(entries: Seq<EntryView>) -> Seq<char> {
    array_text(entries.map_values(|entry: EntryView| entry_json(entry)))
}

/// A JSON document holds one object for each row and no other, in the
/// order of the rows, and each object holds the kind, name, size,
/// modification time and the three flags of its row under their keys.
pub proof fn lemma_json_follows_rows(entries: Seq<EntryView>)
    ensures
        listing_json(entries) == array_text(entries.map_values(|entry: EntryView| entry_json(entry))),
        entries.map_values(|entry: EntryView| entry_json(entry)).len() == entries.len(),
        forall|i: int|
            #![trigger entries[i]]
            0 <= i < entries.len() ==> entries.map_values(|entry: EntryView| entry_json(entry))[i]
                == object_text(
                json_quoted(entries[i].e_type.label()),
                json_quoted(entries[i].name),
                json_quoted(entries[i].len_bytes),
                json_quoted(entries[i].modified),
                entries[i].read_only,
                entries[i].hidden,
                entries[i].is_exec,
            ),
{
}

/// The text `text` as a JSON string, as `serde_json::to_string` writes
/// it. The contract names the text and says that the call succeeds: for
/// a text the serializer only writes quoted and escaped bytes into a
/// `Vec`, and the one error on that path is the writer's, which a `Vec`
/// never gives.
#[verifier::external_body]
fn json_quote(text: &str) -> (out: Result<String, serde_json::Error>)
    ensures
        out is Ok,
        out matches Ok(quoted) ==> quoted@ == json_quoted(text@),
{
    serde_json::to_string(text)
}

/// The text `text` as a JSON string.
fn quote(text: &str) -> (out: String)
    ensures
        out@ == json_quoted(text@),
{
    match json_quote(text) {
        Ok(quoted) => quoted,
        Err(_) => unreached(),
    }
}

/// The text of a flag in JSON.
fn flag_str(flag: bool) -> (s: &'static str)
    ensures
        s@ == flag_text(flag),
{
    if flag {
        "true"
    } else {
        "false"
    }
}

/// Writes the JSON object of an entry from its four texts, each already
/// a JSON string, and its three flags.
pub fn json_object(
    kind: &str,
    name: &str,
    size: &str,
    modified: &str,
    read_only: bool,
    hidden: bool,
    is_exec: bool,
) -> (out: String)
    ensures
        out@ == object_text(kind@, name@, size@, modified@, read_only, hidden, is_exec),
{
    let mut out = String::from_str("{\"e_type\":");
    out.append(kind);
    out.append(",\"name\":");
    out.append(name);
    out.append(",\"len_bytes\":");
    out.append(size);
    out.append(",\"modified\":");
    out.append(modified);
    out.append(",\"read_only\":");
    out.append(flag_str(read_only));
    out.append(",\"hidden\":");
    out.append(flag_str(hidden));
    out.append(",\"is_exec\":");
    out.append(flag_str(is_exec));
    out.append("}");
    assert(out@ =~= object_text(kind@, name@, size@, modified@, read_only, hidden, is_exec));
    out
}

/// Writes the JSON array of the objects, in their order.
pub fn json_array(objects: &Vec<String>) -> (out: String)
    ensures
        out@ == array_text(objects.deep_view()),
{
    let ghost texts = objects.deep_view();
    let mut out = String::from_str("[");
    let mut i: usize = 0;
    while i < objects.len()
        invariant
            i <= objects.len(),
            texts == objects.deep_view(),
            out@ == "["@ + joined(texts.take(i as int)),
        decreases objects.len() - i,
    {
        proof {
            assert(texts.take(i + 1).drop_last() =~= texts.take(i as int));
            assert(texts.take(i + 1).last() == objects[i as int]@);
        }
        if i > 0 {
            out.append(",");
        }
        out.append(objects[i].as_str());
        assert(out@ =~= "["@ + joined(texts.take(i + 1)));
        i = i + 1;
    }
    assert(texts.take(i as int) =~= texts);
    out.append("]");
    out
}

/// Writes the JSON object of an entry.
pub fn entry_to_json(entry: &FileEntry) -> (out: String)
    ensures
        out@ == entry_json(entry@),
{
    let kind = quote(entry.e_type.to_text().as_str());
    let name = quote(entry.name.as_str());
    let size = quote(entry.len_bytes.as_str());
    let modified = quote(entry.modified.as_str());
    json_object(
        kind.as_str(),
        name.as_str(),
        size.as_str(),
        modified.as_str(),
        entry.read_only,
        entry.hidden,
        entry.is_exec,
    )
}

/// Writes a listing as a JSON document: an array of one object for each
/// entry, in the order of the listing.
pub fn to_json(entries: &Vec<FileEntry>) -> (out: String)
    ensures
        out@ == listing_json(views(entries@)),
{
    let ghost rows = views(entries@);
    let mut objects: Vec<String> = Vec::new();
    let mut i: usize = 0;
    while i < entries.len()
        invariant
            i <= entries.len(),
            rows == views(entries@),
            objects.len() == i,
            forall|k: int| 0 <= k < i ==> (#[trigger] objects[k])@ == entry_json(rows[k]),
        decreases entries.len() - i,
    {
        objects.push(entry_to_json(&entries[i]));
        i = i + 1;
    }
    assert(objects.deep_view() =~= rows.map_values(|entry: EntryView| entry_json(entry)));
    json_array(&objects)
}

} // verus!
