use crate::ids::{is_token, random_token};
use crate::models::HubError;
use vstd::prelude::*;

verus! {

/// Whether a character has the Unicode property White_Space, which is what
/// `char::is_whitespace` tells of it.
pub open spec fn white_space(c: char) -> bool {
    ||| 0x09 <= c as u32 <= 0x0D
    ||| c as u32 == 0x20
    ||| c as u32 == 0x85
    ||| c as u32 == 0xA0
    ||| c as u32 == 0x1680
    ||| 0x2000 <= c as u32 <= 0x200A
    ||| c as u32 == 0x2028
    ||| c as u32 == 0x2029
    ||| c as u32 == 0x202F
    ||| c as u32 == 0x205F
    ||| c as u32 == 0x3000
}

/// The text that `str::to_lowercase` gives for a text.
pub uninterp spec fn lowercase(text: Seq<char>) -> Seq<char>;

/// The text that `sha256::digest` gives for a text: its SHA-256 digest in
/// hexadecimal digits.
pub uninterp spec fn sha256_hex(text: Seq<char>) -> Seq<char>;

/// Whether `trimmed` is `text` without the whitespace at its two ends.
pub open spec fn trims_to(text: Seq<char>, trimmed: Seq<char>) -> bool {
    exists|from: int, to: int|
        {
            &&& 0 <= from <= to <= text.len()
            &&& #[trigger] text.subrange(from, to) == trimmed
            &&& forall|i: int| 0 <= i < from ==> white_space(#[trigger] text[i])
            &&& forall|i: int| to <= i < text.len() ==> white_space(#[trigger] text[i])
            &&& from < to ==> !white_space(text[from]) && !white_space(text[to - 1])
        }
}

/// Whether a text holds nothing but whitespace.
pub open spec fn is_blank(text: Seq<char>) -> bool {
    forall|i: int| 0 <= i < text.len() ==> white_space(#[trigger] text[i])
}

/// `str::trim`: the text without its leading and trailing whitespace, where
/// whitespace is what has the Unicode property White_Space.
#[verifier::external_body]
fn trim(text: &str) -> (trimmed: &str)
    ensures
        trims_to(text@, trimmed@),
{
    text.trim()
}

/// `str::to_lowercase`: the lowercase equivalent of the text.
#[verifier::external_body]
fn to_lowercase(text: &str) -> (lower: String)
    ensures
        lower@ == lowercase(text@),
{
    text.to_lowercase()
}

/// `sha256::digest`: the SHA-256 digest of the text, in hexadecimal digits.
#[verifier::external_body]
fn digest(text: &str) -> (hex: String)
    ensures
        hex@ == sha256_hex(text@),
{
    sha256::digest(text)
}

/// Where an uploaded file is sorted to.
#[derive(Clone, Copy, Debug, PartialEq, Eq, Structural)]
pub enum UploadKind {
    /// A profile picture.
    Pp,
    Img,
    Video,
    File,
}

impl UploadKind {
    /// The name of the form field, and of the kind of file.
    pub open spec fn spec_key(self) -> Seq<char> {
        match self {
            UploadKind::Pp => "pp"@,
            UploadKind::Img => "img"@,
            UploadKind::Video => "video"@,
            UploadKind::File => "file"@,
        }
    }

    /// The directory that takes the files.
    pub open spec fn spec_dir(self) -> Seq<char> {
        match self {
            UploadKind::Pp => "./uploads/profile_pictures"@,
            UploadKind::Img => "./uploads/images"@,
            UploadKind::Video => "./uploads/videos"@,
            UploadKind::File => "./uploads/files"@,
        }
    }

    /// The kind that a form field names, if it names one.
    pub open spec fn spec_from_field(field: Seq<char>) -> Option<UploadKind> {
        if field == "pp"@ {
            Some(UploadKind::Pp)
        } else if field == "img"@ {
            Some(UploadKind::Img)
        } else if field == "video"@ {
            Some(UploadKind::Video)
        } else if field == "file"@ {
            Some(UploadKind::File)
        } else {
            None
        }
    }

    pub fn key(self) -> (name: &'static str)
        ensures
            name@ == self.spec_key(),
    {
        match self {
            UploadKind::Pp => "pp",
            UploadKind::Img => "img",
            UploadKind::Video => "video",
            UploadKind::File => "file",
        }
    }

    pub fn dir(self) -> (path: &'static str)
        ensures
            path@ == self.spec_dir(),
    {
        match self {
            UploadKind::Pp => "./uploads/profile_pictures",
            UploadKind::Img => "./uploads/images",
            UploadKind::Video => "./uploads/videos",
            UploadKind::File => "./uploads/files",
        }
    }

    pub fn from_field(field: &str) -> (kind: Option<UploadKind>)
        ensures
            kind == Self::spec_from_field(field@),
    {
        let owned = field.to_owned();
        if owned == "pp".to_owned() {
            Some(UploadKind::Pp)
        } else if owned == "img".to_owned() {
            Some(UploadKind::Img)
        } else if owned == "video".to_owned() {
            Some(UploadKind::Video)
        } else if owned == "file".to_owned() {
            Some(UploadKind::File)
        } else {
            None
        }
    }
}

/// The four kinds, in the order in which their directories are made.
pub fn init() -> (kinds: Vec<UploadKind>)
    ensures
        kinds@ == seq![UploadKind::Img, UploadKind::Pp, UploadKind::Video, UploadKind::File],
{
    let mut kinds: Vec<UploadKind> = Vec::new();
    kinds.push(UploadKind::Img);
    kinds.push(UploadKind::Pp);
    kinds.push(UploadKind::Video);
    kinds.push(UploadKind::File);
    assert(kinds@ =~= seq![UploadKind::Img, UploadKind::Pp, UploadKind::Video, UploadKind::File]);
    kinds
}

/// What the client is told of a file that was saved.
#[derive(Debug, PartialEq, Eq)]
pub struct UploadInfo {
    /// The name that the client gave the file.
    pub filename: String,
    /// The name under which it was saved.
    pub saved_filename: String,
    /// The kind it was sorted to.
    pub kind: String,
}

/// A file that is to be saved.
#[derive(Debug, PartialEq, Eq)]
pub struct UploadPlan {
    pub info: UploadInfo,
    /// Where it is sorted to.
    pub sorted: UploadKind,
}

/// What is done with one field of an upload.
#[derive(Debug, PartialEq, Eq)]
pub enum FieldPlan {
    /// Nothing: the field carries no file.
    Skip,
    /// The file is saved.
    Save(UploadPlan),
    /// The upload is refused.
    Reject(HubError),
}

/// The place of the last dot of a name, or -1 where it has none.
pub open spec fn last_dot(name: Seq<char>) -> int
    decreases name.len(),
{
    if name.len() == 0 {
        -1
    } else if name.last() == '.' {
        name.len() - 1
    } else {
        last_dot(name.drop_last())
    }
}

/// What follows the last dot of a name; the whole name where it has no dot.
pub open spec fn extension(name: Seq<char>) -> Seq<char> {
    name.subrange(last_dot(name) + 1, name.len() as int)
}

/// The name under which a file is saved: the digest of its name and a salt,
/// a dot, and its extension in lowercase.
pub open spec fn saved_name(filename: Seq<char>, salt: Seq<char>) -> Seq<char> {
    sha256_hex(filename + salt) + "."@ + lowercase(extension(filename))
}

/// Whether a field carries a file: it has a name, and a file name that is
/// more than whitespace. `field` and `filename` are `None` where the part
/// names none.
pub open spec fn carries_file(field: Option<Seq<char>>, filename: Option<Seq<char>>) -> bool {
    field is Some && filename is Some && !is_blank(filename->0)
}

/// Whether `plan` is what is done with a field under the salt: a field that
/// carries no file is skipped, one that names no kind is a bad request, and
/// any other is saved under its kind.
pub open spec fn is_field_plan(
    field: Option<Seq<char>>,
    filename: Option<Seq<char>>,
    salt: Seq<char>,
    plan: FieldPlan,
) -> bool {
    if !carries_file(field, filename) {
        plan is Skip
    } else {
        match UploadKind::spec_from_field(field->0) {
            None => plan == FieldPlan::Reject(HubError::BadRequest),
            Some(kind) => {
                &&& plan matches FieldPlan::Save(upload)
                &&& upload.sorted == kind
                &&& upload.info.filename@ == filename->0
                &&& upload.info.saved_filename@ == saved_name(filename->0, salt)
                &&& upload.info.kind@ == kind.spec_key()
            },
        }
    }
}

proof fn lemma_last_dot(name: Seq<char>, from: int)
    requires
        0 <= from <= name.len(),
        forall|k: int| from <= k < name.len() ==> name[k] != '.',
        from > 0 ==> name[from - 1] == '.',
    ensures
        last_dot(name) == from - 1,
    decreases name.len(),
{
    if name.len() > 0 {
        if from < name.len() {
            assert(name.last() != '.');
            lemma_last_dot(name.drop_last(), from);
        }
    }
}

/// What follows the last dot of a file name; the whole name where it has no
/// dot.
pub fn file_extension(filename: &str) -> (ext: &str)
    ensures
        ext@ == extension(filename@),
{
    let len = filename.unicode_len();
    let mut from: usize = len;
    while from > 0 && filename.get_char(from - 1) != '.'
        invariant
            from <= len,
            len == filename@.len(),
            forall|k: int| from <= k < len ==> filename@[k] != '.',
        decreases from,
    {
        from = from - 1;
    }
    proof {
        lemma_last_dot(filename@, from as int);
    }
    filename.substring_char(from, len)
}

proof fn lemma_blank_iff_trims_to_nothing(text: Seq<char>, trimmed: Seq<char>)
    requires
        trims_to(text, trimmed),
    ensures
        trimmed.len() == 0 <==> is_blank(text),
{
    let (from, to) = choose|from: int, to: int|
        {
            &&& 0 <= from <= to <= text.len()
            &&& #[trigger] text.subrange(from, to) == trimmed
            &&& forall|i: int| 0 <= i < from ==> white_space(#[trigger] text[i])
            &&& forall|i: int| to <= i < text.len() ==> white_space(#[trigger] text[i])
            &&& from < to ==> !white_space(text[from]) && !white_space(text[to - 1])
        };
    if trimmed.len() == 0 {
        assert(from == to);
    }
    if is_blank(text) && from < to {
        assert(white_space(text[from]));
    }
}

/// The characters of a text that may be missing.
pub open spec fn text_of(text: Option<&str>) -> Option<Seq<char>> {
    match text {
        Some(inner) => Some(inner@),
        None => None,
    }
}

/// What is done with a field before a name is made for its file.
#[derive(Clone, Copy, Debug, PartialEq, Eq, Structural)]
pub enum FieldVerdict {
    /// Nothing: the field carries no file.
    Skip,
    /// The file is sorted to this kind.
    Sort(UploadKind),
    /// The upload is refused.
    Reject(HubError),
}

/// What is done with a field, given whether its file name is blank: a field
/// without a name or a file name, or with a blank one, is skipped; one that
/// names no kind is a bad request; any other is sorted to its kind.
pub open spec fn spec_sort_field(field: Option<Seq<char>>, filename: Option<Seq<char>>, blank: bool) -> FieldVerdict {
    if field is None || filename is None || blank {
        FieldVerdict::Skip
    } else {
        match UploadKind::spec_from_field(field->0) {
            Some(kind) => FieldVerdict::Sort(kind),
            None => FieldVerdict::Reject(HubError::BadRequest),
        }
    }
}

pub fn sort_field(field: Option<&str>, filename: Option<&str>, blank: bool) -> (verdict: FieldVerdict)
    ensures
        verdict == spec_sort_field(text_of(field), text_of(filename), blank),
{
    match (field, filename) {
        (Some(field), Some(_)) => {
            if blank {
                FieldVerdict::Skip
            } else {
                match UploadKind::from_field(field) {
                    Some(kind) => FieldVerdict::Sort(kind),
                    None => FieldVerdict::Reject(HubError::BadRequest),
                }
            }
        },
        _ => FieldVerdict::Skip,
    }
}

/// The plan to save a file of a kind: under the digest, a dot, and the
/// extension, which is to be the file's own in lowercase.
pub fn saved_upload(kind: UploadKind, filename: &str, digest: String, extension: &str) -> (plan:
    UploadPlan)
    ensures
        plan.sorted == kind,
        plan.info.filename@ == filename@,
        plan.info.saved_filename@ == digest@ + "."@ + extension@,
        plan.info.kind@ == kind.spec_key(),
{
    let mut saved_filename = digest;
    saved_filename.append(".");
    saved_filename.append(extension);
    UploadPlan {
        info: UploadInfo {
            filename: String::from_str(filename),
            saved_filename,
            kind: String::from_str(kind.key()),
        },
        sorted: kind,
    }
}

/// Decides what is done with one field of an upload, under a given salt.
pub fn name_upload(field: Option<&str>, filename: Option<&str>, salt: &str) -> (plan: FieldPlan)
    ensures
        is_field_plan(text_of(field), text_of(filename), salt@, plan),
{
    let blank = match filename {
        Some(name) => {
            let trimmed = trim(name);
            proof {
                lemma_blank_iff_trims_to_nothing(name@, trimmed@);
            }
            trimmed.unicode_len() == 0
        },
        None => true,
    };
    match sort_field(field, filename, blank) {
        FieldVerdict::Skip => FieldPlan::Skip,
        FieldVerdict::Reject(failure) => FieldPlan::Reject(failure),
        FieldVerdict::Sort(kind) => {
            let filename = filename.unwrap();
            let mut salted = String::from_str(filename);
            salted.append(salt);
            let extension = to_lowercase(file_extension(filename));
            FieldPlan::Save(
                saved_upload(kind, filename, digest(salted.as_str()), extension.as_str()),
            )
        },
    }
}

/// The number of characters of the salt that goes into a saved name.
pub const SALT_LENGTH: usize = 10;

/// Decides what is done with one field of an upload, under a fresh random
/// salt of ten letters and digits.
pub fn save_files(field: Option<&str>, filename: Option<&str>) -> (plan: FieldPlan)
    ensures
        exists|salt: Seq<char>|
            is_token(salt, SALT_LENGTH as nat) && #[trigger] is_field_plan(
                text_of(field),
                text_of(filename),
                salt,
                plan,
            ),
{
    let salt = random_token(SALT_LENGTH);
    name_upload(field, filename, salt.as_str())
}

} // verus!
