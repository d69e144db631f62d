//! Creates Implementation Decision Records: one timestamped markdown file,
//! filled in from a bundled template with a title, a date and an owner.

use vstd::prelude::*;
use std::path::PathBuf;
use crate::comments::stripped;
use crate::git::text_of;
use crate::git::Env;
use crate::idr::file_name;
use crate::idr::get_idr_filename;
use crate::idr::get_idr_path;
use crate::idr::place;
use crate::idr::record_text;
use crate::idr::render_idr_template;
use crate::idr::slug_text;
use crate::idr::strip_html_comments;
use crate::paths::as_path;
use crate::paths::pathbuf_bytes;
use crate::template::RenderError;
use crate::time::minute_stamp;
use crate::time::Timestamp;

pub mod comments;
pub mod fixpoint;
pub mod git;
pub mod idr;
pub mod paths;
pub mod template;
pub mod text;
pub mod time;

verus! {

/// The owner written into a record whose author could not be resolved.
pub const UNKNOWN_OWNER: &'static str = "Unknown <unknown>";

/// The variable whose presence asks for records without comments.
pub const NO_COMMENTS: &'static str = "IDR_NO_COMMENTS";

/// A record ready to be written: where it goes and what it says.
#[derive(Debug)]
pub struct Record {
    /// The file to write.
    pub path: PathBuf,
    /// The text to write into it.
    pub body: String,
}

/// The owner of a record: the identity where one was resolved, else a fixed
/// stand-in.
pub open spec fn owner_text(identity: Option<Seq<char>>) -> Seq<char> {
    match identity {
        Some(text) => text,
        None => UNKNOWN_OWNER@,
    }
}

/// The body of a record: the rendered text, stripped of its comments where
/// that is asked for.
pub open spec fn body_text(text: Seq<char>, no_comments: bool) -> Seq<char> {
    if no_comments {
        stripped(text)
    } else {
        text
    }
}

/// Whether comments are to be stripped: where the caller asks for it, and
/// also wherever `env` holds the variable `IDR_NO_COMMENTS`, whatever its
/// value.
pub fn wants_no_comments(no_comments: bool, env: &Env) -> (strip: bool)
    ensures
        strip == (no_comments || env@.contains_key(NO_COMMENTS@)),
{
    no_comments || env.get(NO_COMMENTS).is_some()
}

/// Makes the record for `title`, created at `now` by `identity`, to be placed
/// under `dir`: its text is the template filled in, without its comments
/// where `no_comments` is set; its file is named after the minute and the
/// title. Fails only where the engine rejects the template or a binding.
pub fn create_idr(
    dir: PathBuf,
    title: &str,
    no_comments: bool,
    now: Timestamp,
    identity: Option<String>,
) -> (result: Result<Record, RenderError>)
    ensures
        match result {
            Ok(record) => {
                let name = file_name(minute_stamp(now@), slug_text(title@));
                &&& record_text(title@, owner_text(text_of(identity)), now@) matches Some(text)
                    && record.body@ == body_text(text, no_comments)
                &&& pathbuf_bytes(&record.path) == place(pathbuf_bytes(&dir), true, name)
                    || pathbuf_bytes(&record.path) == place(pathbuf_bytes(&dir), false, name)
            },
            Err(_) => record_text(title@, owner_text(text_of(identity)), now@) is None,
        },
{
    let owner = match identity {
        Some(text) => text,
        None => UNKNOWN_OWNER.to_owned(),
    };
    let rendered = match render_idr_template(title, owner.as_str(), now) {
        Ok(text) => text,
        Err(error) => {
            return Err(error);
        },
    };
    let body = if no_comments {
        strip_html_comments(rendered.as_str())
    } else {
        rendered
    };
    let filename = get_idr_filename(title, now);
    let path = get_idr_path(as_path(&dir), filename);
    Ok(Record { path, body })
}

} // verus!
