//! The tags of one track as a table, and which rows of it are shown.

use vstd::prelude::*;
use crate::cache::{holds_text, listed};
use crate::data::{nonempty_pieces, string_to_vec};
use crate::text::texts;

verus! {

/// Which track to show, and which of its tags.
pub struct InfoArgs {
    /// Names of tags that are not shown, separated by commas
    pub exclude: Option<String>,
    /// Show only the tags that are missing
    pub missing: bool,
    /// File name
    pub name: String,
}

/// The value of a tag.
pub enum TagValue {
    /// A list of texts.
    List(Vec<String>),
    /// A text.
    Text(String),
    /// A number.
    Number(u64),
    /// A value of another kind.
    Other,
}

/// Whether a tag has a value: a list with a member, a text with a character,
/// a number other than zero. A value of another kind counts as missing.
pub open spec fn is_filled(value: TagValue) -> bool {
    match value {
        TagValue::List(list) => list@.len() > 0,
        TagValue::Text(text) => text@.len() > 0,
        TagValue::Number(n) => n != 0,
        TagValue::Other => false,
    }
}

/// The names of the tags that `args` excludes.
pub open spec fn excluded_names(args: InfoArgs) -> Seq<Seq<char>> {
    match args.exclude {
        Some(list) => nonempty_pieces(list@, ","@),
        None => Seq::empty(),
    }
}

/// Whether the row of a tag is shown: its name is not excluded and, where
/// only missing tags are asked for, it has no value.
pub open spec fn is_shown(field: (String, TagValue), excludes: Seq<Seq<char>>, missing: bool) -> bool {
    !listed(excludes, field.0@) && !(missing && is_filled(field.1))
}

/// The rows of `fields` that are shown, in their order.
pub open spec fn shown_fields(fields: Seq<(String, TagValue)>, excludes: Seq<Seq<char>>, missing: bool) -> Seq<
    (String, TagValue),
> {
    fields.filter(|f: (String, TagValue)| is_shown(f, excludes, missing))
}

/// Whether the tag `tagname` is among the excluded ones.
pub fn is_tag_excluded(tagname: String, excludes: &Vec<String>) -> (r: bool)
    ensures
        r == listed(texts(excludes@), tagname@),
{
    holds_text(excludes, tagname.as_str())
}

/// Whether a tag has a value.
pub fn has_value(value: &TagValue) -> (r: bool)
    ensures
        r == is_filled(*value),
{
    match value {
        TagValue::List(list) => list.len() > 0,
        TagValue::Text(text) => crate::text::chars_of(text.as_str()).len() > 0,
        TagValue::Number(n) => *n != 0,
        TagValue::Other => false,
    }
}

/// The rows of the table of a track's tags that `args` asks for, from all of
/// its tags `fields`, name and value.
pub fn get_track_info(args: InfoArgs, fields: Vec<(String, TagValue)>) -> (out: Vec<(String, TagValue)>)
    ensures
        out@ == shown_fields(fields@, excluded_names(args), args.missing),
{
    broadcast use vstd::std_specs::vec::axiom_spec_into_iter;

    let excludes: Vec<String> = match args.exclude {
        Some(list) => string_to_vec(list, ","),
        None => Vec::new(),
    };
    let ghost names = excluded_names(args);
    assert(texts(excludes@) =~= names);
    let missing = args.missing;
    let ghost all = fields@;
    let mut out: Vec<(String, TagValue)> = Vec::new();
    assert(all.take(0) =~= Seq::<(String, TagValue)>::empty());
    for field in it: fields.into_iter()
        invariant
            it.seq() == all,
            texts(excludes@) == names,
            out@ == shown_fields(all.take(it.index()), names, missing),
    {
        proof {
            lemma_shown_fields_push(all.take(it.index()), field, names, missing);
            assert(all.take(it.index() + 1) =~= all.take(it.index()).push(field));
        }
        let excluded = holds_text(&excludes, field.0.as_str());
        let filled = has_value(&field.1);
        if !excluded && !(missing && filled) {
            out.push(field);
        }
    }
    assert(all.take(all.len() as int) =~= all);
    out
}

/// One more tag at the end adds its row to the shown ones, or nothing.
pub proof fn lemma_shown_fields_push(
    fields: Seq<(String, TagValue)>,
    field: (String, TagValue),
    excludes: Seq<Seq<char>>,
    missing: bool,
)
    ensures
        shown_fields(fields.push(field), excludes, missing) == if is_shown(field, excludes, missing) {
            shown_fields(fields, excludes, missing).push(field)
        } else {
            shown_fields(fields, excludes, missing)
        },
{
    reveal(Seq::filter);
    assert(fields.push(field).drop_last() == fields);
}

} // verus!
