//! The parts of a record: its file name, its place, its text, and the text
//! without its comments.

use vstd::prelude::*;
use std::path::Path;
use std::path::PathBuf;
use crate::comments::strip_chars;
use crate::comments::stripped;
use crate::paths::as_path;
use crate::paths::is_dir;
use crate::paths::join;
use crate::paths::joined;
use crate::paths::path_bytes;
use crate::paths::pathbuf_bytes;
use crate::template::render;
use crate::template::render_outcome;
use crate::template::rendered;
use crate::template::RenderError;
use crate::template::TEMPLATE;
use crate::template::TEMPLATE_NAME;
use crate::text::chars_of;
use crate::text::string_of;
use crate::time::is_digit;
use crate::time::iso_date;
use crate::time::lemma_minute_stamp_digits;
use crate::time::minute_stamp;
use crate::time::Civil;
use crate::time::Timestamp;

verus! {

/// The directory that records go to where it exists.
pub const IDRS_DIR: &'static str = "idrs";

/// The slug that `slug::slugify` makes of a title.
pub uninterp spec fn slug_text(title: Seq<char>) -> Seq<char>;

/// Whether `c` may stand in a slug: a small letter, a digit or a hyphen.
pub open spec fn slug_char(c: char) -> bool {
    'a' <= c <= 'z' || '0' <= c <= '9' || c == '-'
}

/// Whether `s` has the form of a slug: small letters, digits and hyphens, no
/// hyphen at either end, and no two hyphens in a row.
pub open spec fn is_slug(s: Seq<char>) -> bool {
    &&& forall|i: int| 0 <= i < s.len() ==> slug_char(#[trigger] s[i])
    &&& s.len() > 0 ==> s[0] != '-' && s[s.len() - 1] != '-'
    &&& forall|i: int| 0 <= i < s.len() - 1 ==> !(#[trigger] s[i] == '-' && s[i + 1] == '-')
}

/// `slug::slugify`: the slug of `title`. It depends on the title alone, and
/// the crate promises its form: it consists of `a-z`, `0-9` and `-`, never
/// has two `-` in a row, and never starts or ends with `-`.
#[verifier::external_body]
fn slugify(title: &str) -> (slug: String)
    ensures
        slug@ == slug_text(title@),
        is_slug(slug@),
{
    slug::slugify(title)
}

/// The name of the file for a stamp and a slug.
pub open spec fn file_name(stamp: Seq<char>, slug: Seq<char>) -> Seq<char> {
    stamp + "-"@ + slug + ".md"@
}

/// Whether `name` is twelve digits, a hyphen, a slug of at least one
/// character, and `.md`.
pub open spec fn well_named(name: Seq<char>) -> bool {
    let n = name.len() as int;
    &&& n >= 17
    &&& forall|i: int| 0 <= i < 12 ==> is_digit(#[trigger] name[i])
    &&& name[12] == '-'
    &&& is_slug(name.subrange(13, n - 3))
    &&& name[n - 3] == '.'
    &&& name[n - 2] == 'm'
    &&& name[n - 1] == 'd'
}

/// The file name of any minute and any slug that is not empty is well named.
pub proof fn lemma_file_name_shape(when: Civil, slug: Seq<char>)
    requires
        is_slug(slug),
        slug.len() > 0,
    ensures
        well_named(file_name(minute_stamp(when), slug)),
{
    reveal_strlit("-");
    reveal_strlit(".md");
    lemma_minute_stamp_digits(when);
    let name = file_name(minute_stamp(when), slug);
    let n = name.len() as int;
    assert(n == 12 + 1 + slug.len() + 3);
    assert(name.subrange(13, n - 3) =~= slug);
    assert forall|i: int| 0 <= i < 12 implies is_digit(#[trigger] name[i]) by {
        assert(name[i] == minute_stamp(when)[i]);
    }
}

/// Puts a file name together from its stamp and its slug.
pub fn name_file(stamp: &str, slug: &str) -> (name: String)
    ensures
        name@ == file_name(stamp@, slug@),
{
    let mut name = stamp.to_owned();
    name.append("-");
    name.append(slug);
    name.append(".md");
    name
}

/// The file name of a record: the minute of its creation as twelve digits, a
/// hyphen, the slug of its title, and `.md`.
pub fn get_idr_filename(title: &str, timestamp: Timestamp) -> (name: String)
    ensures
        name@ == file_name(minute_stamp(timestamp@), slug_text(title@)),
        is_slug(slug_text(title@)),
        slug_text(title@).len() > 0 ==> well_named(name@),
{
    let stamp = timestamp.stamp();
    let slug = slugify(title);
    proof {
        if slug@.len() > 0 {
            lemma_file_name_shape(timestamp@, slug@);
        }
    }
    name_file(stamp.as_str(), slug.as_str())
}

/// The place of `filename` under `base`: in the directory `idrs` where there
/// is one, else in `base` itself.
pub open spec fn place(base: Seq<u8>, has_idrs: bool, filename: Seq<char>) -> Seq<u8> {
    if has_idrs {
        joined(joined(base, IDRS_DIR@), filename)
    } else {
        joined(base, filename)
    }
}

/// The place of `filename` under `path`, given whether `path` holds a
/// directory `idrs`.
pub fn place_file(path: &Path, has_idrs: bool, filename: String) -> (target: PathBuf)
    ensures
        pathbuf_bytes(&target) == place(path_bytes(path), has_idrs, filename@),
{
    if has_idrs {
        let idrs = join(path, IDRS_DIR);
        join(as_path(&idrs), filename.as_str())
    } else {
        join(path, filename.as_str())
    }
}

/// The place of `filename` under `path`: in `path/idrs` if the file system
/// holds such a directory, else in `path`.
pub fn get_idr_path(path: &Path, filename: String) -> (target: PathBuf)
    ensures
        pathbuf_bytes(&target) == place(path_bytes(path), true, filename@) || pathbuf_bytes(&target)
            == place(path_bytes(path), false, filename@),
{
    let idrs = join(path, IDRS_DIR);
    let has_idrs = is_dir(as_path(&idrs));
    place_file(path, has_idrs, filename)
}

/// `text` without its comments: every `<!-- ... -->` taken out, the lines left
/// with whitespace only emptied, runs of newlines cut to two, and the ends
/// trimmed.
pub fn strip_html_comments(text: &str) -> (bare: String)
    ensures
        bare@ == stripped(text@),
{
    string_of(&strip_chars(&chars_of(text)))
}

/// The values bound to the template's three variables.
pub open spec fn bound(date: Seq<char>, title: Seq<char>, owner: Seq<char>) -> Seq<
    (Seq<char>, Seq<char>),
> {
    seq![("date"@, date), ("title"@, title), ("owner"@, owner)]
}

/// The text of a record, where the engine gives one.
pub open spec fn record_text(title: Seq<char>, owner: Seq<char>, when: Civil) -> Option<Seq<char>> {
    rendered(TEMPLATE_NAME@, TEMPLATE@, bound(iso_date(when), title, owner))
}

/// Fills the template in with the date of `timestamp`, `title` and `owner`.
pub fn render_idr_template(title: &str, owner: &str, timestamp: Timestamp) -> (result: Result<
    String,
    RenderError,
>)
    ensures
        match result {
            Ok(text) => record_text(title@, owner@, timestamp@) == Some(text@),
            Err(_) => record_text(title@, owner@, timestamp@) is None,
        },
{
    let date = timestamp.date();
    let mut bindings: Vec<(String, String)> = Vec::new();
    bindings.push(("date".to_owned(), date));
    bindings.push(("title".to_owned(), title.to_owned()));
    bindings.push(("owner".to_owned(), owner.to_owned()));
    assert(bindings.deep_view() =~= bound(iso_date(timestamp@), title@, owner@));
    render_outcome(render(TEMPLATE_NAME, TEMPLATE, &bindings))
}

} // verus!
