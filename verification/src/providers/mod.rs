//! What the providers have in common: files to upload, the results of a
//! prediction, model descriptions and the polling schedule.

pub mod fal;
pub mod replicate;
pub mod wavespeed;

use vstd::prelude::*;
use crate::config::opt_view;
use crate::json::{Json, JsonV};
use crate::paths::{path_exists, path_extension, path_extension_of, PathLookup};
use crate::strmap::StrMap;
use vstd::string::*;
use crate::text::{ascii_lower_seq, decimal, decimal_string, eq_ascii_lower, find_char, char_range};

verus! {

/// A file to be uploaded as a model input.
pub struct FileUpload {
    pub path: String,
    pub mime_type: Option<String>,
}

impl View for FileUpload {
    type V = (Seq<char>, Option<Seq<char>>);

    open spec fn view(&self) -> (Seq<char>, Option<Seq<char>>) {
        (self.path@, opt_view(self.mime_type))
    }
}

/// The MIME type that a file extension stands for, ignoring ASCII case.
pub open spec fn mime_for(ext: Seq<char>) -> Seq<char> {
    let e = ascii_lower_seq(ext);
    if e == "jpg"@ || e == "jpeg"@ {
        "image/jpeg"@
    } else if e == "png"@ {
        "image/png"@
    } else if e == "gif"@ {
        "image/gif"@
    } else if e == "webp"@ {
        "image/webp"@
    } else if e == "mp3"@ {
        "audio/mpeg"@
    } else if e == "wav"@ {
        "audio/wav"@
    } else if e == "mp4"@ {
        "video/mp4"@
    } else if e == "webm"@ {
        "video/webm"@
    } else if e == "pdf"@ {
        "application/pdf"@
    } else if e == "txt"@ {
        "text/plain"@
    } else if e == "json"@ {
        "application/json"@
    } else {
        "application/octet-stream"@
    }
}

/// The MIME type for an optional extension; no extension counts as an
/// empty one.
pub open spec fn mime_for_opt(ext: Option<Seq<char>>) -> Seq<char> {
    match ext {
        Some(e) => mime_for(e),
        None => mime_for(Seq::empty()),
    }
}

/// The MIME type of a file: the one given, else the one its extension
/// stands for.
pub open spec fn detected_mime(f: (Seq<char>, Option<Seq<char>>)) -> Seq<char> {
    match f.1 {
        Some(m) => m,
        None => mime_for_opt(path_extension_of(f.0)),
    }
}

/// The MIME type for an extension (lower-cased in ASCII before it is
/// matched), `application/octet-stream` when it is unknown or missing.
pub fn mime_type_for_extension(ext: Option<&str>) -> (m: String)
    ensures
        m@ == match ext {
            Some(e) => mime_for(e@),
            None => mime_for(Seq::empty()),
        },
{
    let e: &str = match ext {
        Some(e) => e,
        None => "",
    };
    proof {
        if ext is None {
            assert(e@ =~= Seq::<char>::empty()) by {
                reveal_strlit("");
            }
        }
    }
    let m = if eq_ascii_lower(e, "jpg") || eq_ascii_lower(e, "jpeg") {
        "image/jpeg"
    } else if eq_ascii_lower(e, "png") {
        "image/png"
    } else if eq_ascii_lower(e, "gif") {
        "image/gif"
    } else if eq_ascii_lower(e, "webp") {
        "image/webp"
    } else if eq_ascii_lower(e, "mp3") {
        "audio/mpeg"
    } else if eq_ascii_lower(e, "wav") {
        "audio/wav"
    } else if eq_ascii_lower(e, "mp4") {
        "video/mp4"
    } else if eq_ascii_lower(e, "webm") {
        "video/webm"
    } else if eq_ascii_lower(e, "pdf") {
        "application/pdf"
    } else if eq_ascii_lower(e, "txt") {
        "text/plain"
    } else if eq_ascii_lower(e, "json") {
        "application/json"
    } else {
        "application/octet-stream"
    };
    m.to_owned()
}

impl FileUpload {
    /// A file to upload, with its MIME type left to detection.
    pub fn new(path: String) -> (f: Self)
        ensures
            f@ == (path@, None::<Seq<char>>),
    {
        FileUpload { path, mime_type: None }
    }

    /// The same file with its MIME type given.
    pub fn with_mime_type(self, mime_type: String) -> (f: Self)
        ensures
            f@ == (self@.0, Some(mime_type@)),
    {
        FileUpload { path: self.path, mime_type: Some(mime_type) }
    }

    /// The file's MIME type: the one given, else the one its extension stands for.
    pub fn detect_mime_type(&self) -> (m: String)
        ensures
            m@ == detected_mime(self@),
    {
        match &self.mime_type {
            Some(m) => m.clone(),
            None => {
                let ext = path_extension(self.path.as_str());
                match ext {
                    Some(e) => mime_type_for_extension(Some(e.as_str())),
                    None => mime_type_for_extension(None),
                }
            },
        }
    }
}

/// The name and path of a `name=path` argument: the text before and after
/// the first `=`, if there is one.
pub open spec fn split_file_arg(arg: Seq<char>) -> Option<(Seq<char>, Seq<char>)> {
    if exists|i: int| 0 <= i < arg.len() && arg[i] == '=' {
        let i = choose|i: int|
            0 <= i < arg.len() && arg[i] == '=' && forall|j: int| 0 <= j < i ==> arg[j] != '=';
        Some((arg.take(i), arg.skip(i + 1)))
    } else {
        None
    }
}

/// Splits a `name=path` argument at its first `=`.
pub fn parse_file_arg(arg: &str) -> (r: Option<(String, String)>)
    ensures
        match r {
            Some((name, path)) => split_file_arg(arg@) == Some((name@, path@)),
            None => split_file_arg(arg@) is None,
        },
{
    match find_char(arg, '=') {
        Some(i) => {
            let n = arg.unicode_len();
            let name = char_range(arg, 0, i);
            let path = char_range(arg, i + 1, n);
            proof {
                let c = choose|c: int|
                    0 <= c < arg@.len() && arg@[c] == '=' && forall|j: int|
                        0 <= j < c ==> arg@[j] != '=';
                assert(c == i as int) by {
                    if c < i {
                    } else if c > i {
                    }
                }
                assert(arg@.subrange(0, i as int) =~= arg@.take(i as int));
                assert(arg@.subrange(i + 1, n as int) =~= arg@.skip(i + 1));
            }
            Some((name, path))
        },
        None => None,
    }
}

/// Why a list of file arguments was refused.
#[derive(Debug)]
pub enum FileArgError {
    /// An argument without `=`.
    InvalidFormat(String),
    /// A path that does not exist.
    NotFound(String),
}

/// The mathematical form of a file argument error.
pub enum FileArgErrorV {
    InvalidFormat(Seq<char>),
    NotFound(Seq<char>),
}

impl View for FileArgError {
    type V = FileArgErrorV;

    open spec fn view(&self) -> FileArgErrorV {
        match self {
            FileArgError::InvalidFormat(a) => FileArgErrorV::InvalidFormat(a@),
            FileArgError::NotFound(p) => FileArgErrorV::NotFound(p@),
        }
    }
}

/// The text of a file argument error.
pub open spec fn file_arg_error_text(e: FileArgErrorV) -> Seq<char> {
    match e {
        FileArgErrorV::InvalidFormat(a) => "Invalid file argument format: '"@ + a
            + "'. Expected 'param_name=path'"@,
        FileArgErrorV::NotFound(p) => "File not found: "@ + p,
    }
}

impl FileArgError {
    /// The error's message.
    pub fn message(&self) -> (m: String)
        ensures
            m@ == file_arg_error_text(self@),
    {
        match self {
            FileArgError::InvalidFormat(a) => {
                let mut m = "Invalid file argument format: '".to_owned();
                m.append(a.as_str());
                m.append("'. Expected 'param_name=path'");
                m
            },
            FileArgError::NotFound(p) => {
                let mut m = "File not found: ".to_owned();
                m.append(p.as_str());
                m
            },
        }
    }
}

/// The files named by `args`, given for each argument whether its path
/// exists (`exists[i]` for `args[i]`; a missing entry counts as absent):
/// each argument is split at its first `=`, the first argument without one
/// or with a missing path stops the whole, and a later argument with the same
/// name replaces an earlier one.
pub open spec fn file_args_outcome(args: Seq<Seq<char>>, exists: Seq<bool>) -> Result<
    Map<Seq<char>, (Seq<char>, Option<Seq<char>>)>,
    FileArgErrorV,
>
    decreases args.len(),
{
    if args.len() == 0 {
        Ok(Map::empty())
    } else {
        let n = args.len() - 1;
        match file_args_outcome(args.drop_last(), exists) {
            Err(e) => Err(e),
            Ok(m) => match split_file_arg(args[n]) {
                None => Err(FileArgErrorV::InvalidFormat(args[n])),
                Some((name, path)) => if n < exists.len() && exists[n] {
                    Ok(m.insert(name, (path, None)))
                } else {
                    Err(FileArgErrorV::NotFound(path))
                },
            },
        }
    }
}

/// The texts of a list of strings.
pub open spec fn texts(v: Seq<String>) -> Seq<Seq<char>> {
    Seq::new(v.len(), |i: int| v[i]@)
}

/// The view of the outcome of parsing file arguments.
pub open spec fn file_args_result_view(r: Result<StrMap<FileUpload>, FileArgError>) -> Result<
    Map<Seq<char>, (Seq<char>, Option<Seq<char>>)>,
    FileArgErrorV,
> {
    match r {
        Ok(m) => Ok(m.contents()),
        Err(e) => Err(e@),
    }
}

/// Adds one parsed file argument, given whether its path exists.
pub fn add_file_arg(files: &mut StrMap<FileUpload>, name: String, path: String, exists: bool) -> (r:
    Result<(), FileArgError>)
    ensures
        exists ==> r is Ok && final(files).contents() == old(files).contents().insert(
            name@,
            (path@, None::<Seq<char>>),
        ),
        !exists ==> (r matches Err(e) && e@ == FileArgErrorV::NotFound(path@)) && final(files).contents()
            == old(files).contents(),
{
    if exists {
        files.insert(name, FileUpload::new(path));
        Ok(())
    } else {
        Err(FileArgError::NotFound(path))
    }
}

proof fn lemma_outcome_prefix_err(args: Seq<Seq<char>>, exists: Seq<bool>, k: int)
    requires
        0 <= k <= args.len(),
        file_args_outcome(args.take(k), exists) is Err,
    ensures
        file_args_outcome(args, exists) == file_args_outcome(args.take(k), exists),
    decreases args.len() - k,
{
    if k < args.len() {
        assert(args.take(k + 1).drop_last() =~= args.take(k));
        lemma_outcome_prefix_err(args, exists, k + 1);
    } else {
        assert(args.take(k) =~= args);
    }
}

proof fn lemma_outcome_flags_prefix(args: Seq<Seq<char>>, exists: Seq<bool>, more: Seq<bool>)
    requires
        exists.len() >= args.len(),
    ensures
        file_args_outcome(args, exists) == file_args_outcome(args, exists + more),
    decreases args.len(),
{
    if args.len() > 0 {
        lemma_outcome_flags_prefix(args.drop_last(), exists, more);
    }
}

/// Whether `lookups` are the disk's answers for the paths of the first
/// arguments, in order: lookup `i` was asked about the path split from
/// `args[i]`, and every argument whose path the outcome depends on was
/// looked up (all of them, or those before one that has no `=`, or those up
/// to the first one that fails).
pub open spec fn lookups_fit(args: Seq<Seq<char>>, lookups: Seq<PathLookup>) -> bool {
    &&& lookups.len() <= args.len()
    &&& forall|i: int| 0 <= i < lookups.len() ==> lookup_fits(args[i], #[trigger] lookups[i])
    &&& lookups.len() == args.len() || split_file_arg(args[lookups.len() as int]) is None
        || file_args_outcome(args.take(lookups.len() as int), lookup_answers(lookups)) is Err
}

/// Whether `lookup` was asked about the path split from `arg`.
pub open spec fn lookup_fits(arg: Seq<char>, lookup: PathLookup) -> bool {
    match split_file_arg(arg) {
        Some((_name, path)) => lookup.asked() == path,
        None => false,
    }
}

/// The answers that `lookups` got.
pub open spec fn lookup_answers(lookups: Seq<PathLookup>) -> Seq<bool> {
    Seq::new(lookups.len(), |i: int| lookups[i].answer())
}

proof fn lemma_not_found_source(args: Seq<Seq<char>>, flags: Seq<bool>, p: Seq<char>) -> (k: int)
    requires
        file_args_outcome(args, flags) == Err::<
            Map<Seq<char>, (Seq<char>, Option<Seq<char>>)>,
            FileArgErrorV,
        >(FileArgErrorV::NotFound(p)),
    ensures
        0 <= k < args.len(),
        file_args_outcome(args.take(k), flags) is Ok,
        split_file_arg(args[k]) matches Some((_name, path)) && path == p,
        !(k < flags.len() && flags[k]),
    decreases args.len(),
{
    let n = args.len() - 1;
    let front = args.drop_last();
    match file_args_outcome(front, flags) {
        Err(_) => {
            let k = lemma_not_found_source(front, flags, p);
            assert(front.take(k) =~= args.take(k));
            k
        },
        Ok(_) => {
            assert(args.take(n) =~= front);
            n
        },
    }
}

/// A file argument is reported missing only on the disk's own word: when
/// the outcome is `NotFound(p)`, the disk was asked about `p`, split from
/// one of the arguments, and answered that nothing is there. So a path that
/// the disk reports present is never reported missing.
pub proof fn law_not_found_only_when_absent(args: Seq<Seq<char>>, lookups: Seq<PathLookup>, p: Seq<char>)
    requires
        lookups_fit(args, lookups),
        file_args_outcome(args, lookup_answers(lookups)) == Err::<
            Map<Seq<char>, (Seq<char>, Option<Seq<char>>)>,
            FileArgErrorV,
        >(FileArgErrorV::NotFound(p)),
    ensures
        exists|i: int|
            0 <= i < lookups.len() && lookup_fits(args[i], lookups[i]) && #[trigger] lookups[i].asked()
                == p && !lookups[i].answer(),
{
    let flags = lookup_answers(lookups);
    let k = lemma_not_found_source(args, flags, p);
    let l = lookups.len() as int;
    if k >= l {
        if split_file_arg(args[l]) is None {
            if l == k {
            } else {
                assert(args.take(k).take(l + 1) =~= args.take(l + 1));
                assert(args.take(l + 1).drop_last() =~= args.take(l));
                if file_args_outcome(args.take(l), flags) is Ok {
                    assert(file_args_outcome(args.take(l + 1), flags) is Err);
                }
                lemma_outcome_prefix_err(args.take(k), flags, l + 1);
            }
        } else {
            assert(args.take(k).take(l) =~= args.take(l));
            lemma_outcome_prefix_err(args.take(k), flags, l);
        }
    }
    assert(lookups[k].asked() == p);
}

proof fn lemma_outcome_ok_prefix(args: Seq<Seq<char>>, flags: Seq<bool>, m: int)
    requires
        0 <= m <= args.len(),
        m <= flags.len(),
        forall|i: int| 0 <= i < m ==> split_file_arg(#[trigger] args[i]) is Some && flags[i],
    ensures
        file_args_outcome(args.take(m), flags) is Ok,
    decreases m,
{
    if m > 0 {
        lemma_outcome_ok_prefix(args, flags, m - 1);
        assert(args.take(m).drop_last() =~= args.take(m - 1));
        assert(args.take(m)[m - 1] == args[m - 1]);
    }
}

/// Where every argument has the form `name=path` and the disk answers that
/// each path exists, every argument is looked up and parsing succeeds.
pub proof fn law_ok_when_all_present(args: Seq<Seq<char>>, lookups: Seq<PathLookup>)
    requires
        lookups_fit(args, lookups),
        forall|i: int| 0 <= i < args.len() ==> split_file_arg(#[trigger] args[i]) is Some,
        forall|i: int| 0 <= i < lookups.len() ==> #[trigger] lookups[i].answer(),
    ensures
        lookups.len() == args.len(),
        file_args_outcome(args, lookup_answers(lookups)) is Ok,
{
    let flags = lookup_answers(lookups);
    let l = lookups.len() as int;
    assert forall|i: int| 0 <= i < l implies split_file_arg(#[trigger] args[i]) is Some && flags[i] by {
        assert(lookups[i].answer());
    }
    lemma_outcome_ok_prefix(args, flags, l);
    assert(args.take(args.len() as int) =~= args);
}

/// Parses `name=path` file arguments into the files to upload. Each path is
/// looked up on disk, and the outcome is the one that the disk's answers for
/// those very paths give.
pub fn parse_file_args(args: &Vec<String>) -> (r: Result<StrMap<FileUpload>, FileArgError>)
    ensures
        exists|lookups: Seq<PathLookup>|
            lookups_fit(texts(args@), lookups) && file_args_result_view(r) == file_args_outcome(
                texts(args@),
                lookup_answers(lookups),
            ),
        exists|exists_flags: Seq<bool>|
            exists_flags.len() == args@.len() && file_args_result_view(r) == file_args_outcome(
                texts(args@),
                exists_flags,
            ),
{
    let mut files: StrMap<FileUpload> = StrMap::new();
    let ghost mut looked: Seq<PathLookup> = Seq::empty();
    let ghost all = texts(args@);
    let mut i: usize = 0;
    assert(lookup_answers(looked) =~= Seq::<bool>::empty());
    while i < args.len()
        invariant
            i <= args@.len(),
            looked.len() == i,
            all == texts(args@),
            forall|j: int| 0 <= j < i ==> lookup_fits(all[j], #[trigger] looked[j]),
            file_args_outcome(all.take(i as int), lookup_answers(looked)) == Ok::<
                Map<Seq<char>, (Seq<char>, Option<Seq<char>>)>,
                FileArgErrorV,
            >(files.contents()),
        decreases args@.len() - i,
    {
        let ghost flags = lookup_answers(looked);
        let arg = &args[i];
        assert(all.take(i + 1).drop_last() =~= all.take(i as int));
        assert(all.take(i + 1)[i as int] == arg@);
        match parse_file_arg(arg.as_str()) {
            None => {
                let ghost f2 = flags.push(false);
                let r: Result<StrMap<FileUpload>, FileArgError> = Err(
                    FileArgError::InvalidFormat(arg.clone()),
                );
                proof {
                    lemma_outcome_flags_prefix(all.take(i as int), flags, seq![false]);
                    assert(flags + seq![false] =~= f2);
                    let pad = Seq::new((args@.len() - i - 1) as nat, |j: int| false);
                    assert(file_args_outcome(all.take(i + 1), f2) == Err::<
                        Map<Seq<char>, (Seq<char>, Option<Seq<char>>)>,
                        FileArgErrorV,
                    >(FileArgErrorV::InvalidFormat(arg@)));
                    lemma_outcome_flags_prefix(all.take(i + 1), f2, pad);
                    lemma_outcome_prefix_err(all, f2 + pad, i + 1);
                    assert((f2 + pad).len() == args@.len());
                    assert(file_args_result_view(r) == file_args_outcome(all, f2 + pad));
                    assert(file_args_outcome(all.take(i + 1), flags) == Err::<
                        Map<Seq<char>, (Seq<char>, Option<Seq<char>>)>,
                        FileArgErrorV,
                    >(FileArgErrorV::InvalidFormat(arg@)));
                    lemma_outcome_prefix_err(all, flags, i + 1);
                    assert(lookups_fit(all, looked));
                    assert(file_args_result_view(r) == file_args_outcome(all, lookup_answers(looked)));
                }
                return r;
            },
            Some((name, path)) => {
                let lookup = path_exists(path.as_str());
                let e = lookup.found();
                proof {
                    lemma_outcome_flags_prefix(all.take(i as int), flags, seq![e]);
                    let ghost before = looked;
                    looked = looked.push(lookup);
                    assert(lookup_answers(looked) =~= flags + seq![e]);
                    assert(lookup_fits(arg@, lookup));
                    assert forall|j: int| 0 <= j < looked.len() implies lookup_fits(
                        all[j],
                        #[trigger] looked[j],
                    ) by {
                        if j == i {
                            assert(all[j] == arg@);
                        } else {
                            assert(looked[j] == before[j]);
                        }
                    }
                }
                let step = add_file_arg(&mut files, name, path, e);
                if let Err(err) = step {
                    let r: Result<StrMap<FileUpload>, FileArgError> = Err(err);
                    proof {
                        let f1 = lookup_answers(looked);
                        let pad = Seq::new((args@.len() - i - 1) as nat, |j: int| false);
                        assert(file_args_outcome(all.take(i + 1), f1) == Err::<
                            Map<Seq<char>, (Seq<char>, Option<Seq<char>>)>,
                            FileArgErrorV,
                        >(err@));
                        lemma_outcome_flags_prefix(all.take(i + 1), f1, pad);
                        lemma_outcome_prefix_err(all, f1 + pad, i + 1);
                        assert((f1 + pad).len() == args@.len());
                        assert(file_args_result_view(r) == file_args_outcome(all, f1 + pad));
                        lemma_outcome_flags_prefix(all.take(i + 1), f1, Seq::empty());
                        assert(f1 + Seq::<bool>::empty() =~= f1);
                        lemma_outcome_prefix_err(all, f1, i + 1);
                        assert(all.take(looked.len() as int) == all.take(i + 1));
                        assert(lookups_fit(all, looked));
                    }
                    return r;
                }
                i = i + 1;
            },
        }
    }
    assert(all.take(args@.len() as int) =~= all);
    assert(lookup_answers(looked).len() == args@.len());
    assert(lookups_fit(all, looked));
    Ok(files)
}

/// The character of a six-bit value in the standard Base64 alphabet.
pub open spec fn base64_digit(v: int) -> char {
    if v < 26 {
        (0x41 + v) as char
    } else if v < 52 {
        (0x61 + v - 26) as char
    } else if v < 62 {
        (0x30 + v - 52) as char
    } else if v == 62 {
        '+'
    } else {
        '/'
    }
}

/// The standard Base64 encoding of `bytes`, with `=` padding: every three
/// bytes become four characters of six bits each.
pub open spec fn base64_standard(bytes: Seq<u8>) -> Seq<char>
    decreases bytes.len(),
{
    if bytes.len() == 0 {
        Seq::empty()
    } else if bytes.len() == 1 {
        let b0 = bytes[0] as int;
        seq![base64_digit(b0 / 4), base64_digit((b0 % 4) * 16), '=', '=']
    } else if bytes.len() == 2 {
        let (b0, b1) = (bytes[0] as int, bytes[1] as int);
        seq![base64_digit(b0 / 4), base64_digit((b0 % 4) * 16 + b1 / 16), base64_digit((b1 % 16) * 4), '=']
    } else {
        let (b0, b1, b2) = (bytes[0] as int, bytes[1] as int, bytes[2] as int);
        seq![
            base64_digit(b0 / 4),
            base64_digit((b0 % 4) * 16 + b1 / 16),
            base64_digit((b1 % 16) * 4 + b2 / 64),
            base64_digit(b2 % 64),
        ] + base64_standard(bytes.skip(3))
    }
}

/// The one-character text of a six-bit value in the standard Base64
/// alphabet.
fn base64_char(v: u8) -> (s: &'static str)
    requires
        v < 64,
    ensures
        s@ == seq![base64_digit(v as int)],
{
    let alphabet = "ABCDEFGHIJKLMNOPQRSTUVWXYZabcdefghijklmnopqrstuvwxyz0123456789+/";
    proof {
        reveal_strlit("ABCDEFGHIJKLMNOPQRSTUVWXYZabcdefghijklmnopqrstuvwxyz0123456789+/");
    }
    assert(alphabet@[v as int] == base64_digit(v as int));
    let r = alphabet.substring_ascii(v as usize, v as usize + 1);
    assert(r@ =~= seq![base64_digit(v as int)]);
    r
}

/// Encodes bytes in standard Base64 with `=` padding: the whole input in one
/// piece, four characters for every started group of three bytes.
fn base64_encode(bytes: &[u8]) -> (s: String)
    requires
        (bytes@.len() + 2) / 3 * 4 <= usize::MAX,
    ensures
        s@ == base64_standard(bytes@),
{
    let n = bytes.len();
    let mut s = String::new();
    let mut i: usize = 0;
    assert(bytes@.skip(0) =~= bytes@);
    assert(s@ + base64_standard(bytes@) =~= base64_standard(bytes@));
    while n - i >= 3
        invariant
            i <= n,
            n == bytes@.len(),
            s@ + base64_standard(bytes@.skip(i as int)) == base64_standard(bytes@),
        decreases n - i,
    {
        let b0 = bytes[i];
        let b1 = bytes[i + 1];
        let b2 = bytes[i + 2];
        let ghost before = s@;
        s.append(base64_char(b0 / 4));
        s.append(base64_char((b0 % 4) * 16 + b1 / 16));
        s.append(base64_char((b1 % 16) * 4 + b2 / 64));
        s.append(base64_char(b2 % 64));
        proof {
            let rest = bytes@.skip(i as int);
            assert(rest.skip(3) =~= bytes@.skip(i + 3));
            assert(rest[0] == b0 && rest[1] == b1 && rest[2] == b2);
            assert(s@ + base64_standard(bytes@.skip(i + 3)) =~= before + base64_standard(rest));
        }
        i = i + 3;
    }
    let rest_len = n - i;
    let ghost before = s@;
    let ghost rest = bytes@.skip(i as int);
    if rest_len == 1 {
        let b0 = bytes[i];
        s.append(base64_char(b0 / 4));
        s.append(base64_char((b0 % 4) * 16));
        s.append("==");
        proof {
            reveal_strlit("==");
            assert(rest[0] == b0);
            assert(s@ =~= before + base64_standard(rest));
        }
    } else if rest_len == 2 {
        let b0 = bytes[i];
        let b1 = bytes[i + 1];
        s.append(base64_char(b0 / 4));
        s.append(base64_char((b0 % 4) * 16 + b1 / 16));
        s.append(base64_char((b1 % 16) * 4));
        s.append("=");
        proof {
            reveal_strlit("=");
            assert(rest[0] == b0 && rest[1] == b1);
            assert(s@ =~= before + base64_standard(rest));
        }
    } else {
        assert(rest.len() == 0);
        assert(s@ =~= before + base64_standard(rest));
    }
    s
}

/// The six-bit value of a character of the standard Base64 alphabet.
pub open spec fn base64_value(c: char) -> int {
    if 'A' <= c <= 'Z' {
        c as int - 0x41
    } else if 'a' <= c <= 'z' {
        c as int - 0x61 + 26
    } else if '0' <= c <= '9' {
        c as int - 0x30 + 52
    } else if c == '+' {
        62
    } else {
        63
    }
}

/// Standard Base64 decoding: every four characters give three bytes, and a
/// group with `=` in it gives fewer and ends the text.
pub open spec fn base64_decoded(s: Seq<char>) -> Seq<u8>
    decreases s.len(),
{
    if s.len() < 4 {
        Seq::empty()
    } else {
        let d0 = base64_value(s[0]);
        let d1 = base64_value(s[1]);
        let d2 = base64_value(s[2]);
        let d3 = base64_value(s[3]);
        let b0 = (d0 * 4 + d1 / 16) as u8;
        let b1 = ((d1 % 16) * 16 + d2 / 4) as u8;
        let b2 = ((d2 % 4) * 64 + d3) as u8;
        if s[2] == '=' {
            seq![b0]
        } else if s[3] == '=' {
            seq![b0, b1]
        } else {
            seq![b0, b1, b2] + base64_decoded(s.skip(4))
        }
    }
}

proof fn lemma_base64_digit(v: int)
    requires
        0 <= v < 64,
    ensures
        base64_value(base64_digit(v)) == v,
        base64_digit(v) != '=',
{
}

/// Every three bytes of the input give four characters of the output, so
/// its length is four for each started group of three bytes.
pub proof fn law_base64_length(bytes: Seq<u8>)
    ensures
        base64_standard(bytes).len() == (bytes.len() + 2) / 3 * 4,
    decreases bytes.len(),
{
    if bytes.len() >= 3 {
        law_base64_length(bytes.skip(3));
    }
}

/// Decoding the Base64 of any bytes gives those bytes back.
pub proof fn law_base64_round_trip(bytes: Seq<u8>)
    ensures
        base64_decoded(base64_standard(bytes)) == bytes,
    decreases bytes.len(),
{
    let s = base64_standard(bytes);
    if bytes.len() == 0 {
    } else {
        let b0 = bytes[0] as int;
        lemma_base64_digit(b0 / 4);
        if bytes.len() == 1 {
            lemma_base64_digit((b0 % 4) * 16);
            assert(base64_decoded(s) =~= bytes);
        } else {
            let b1 = bytes[1] as int;
            lemma_base64_digit((b0 % 4) * 16 + b1 / 16);
            if bytes.len() == 2 {
                lemma_base64_digit((b1 % 16) * 4);
                assert(base64_decoded(s) =~= bytes);
            } else {
                let b2 = bytes[2] as int;
                lemma_base64_digit((b1 % 16) * 4 + b2 / 64);
                lemma_base64_digit(b2 % 64);
                law_base64_round_trip(bytes.skip(3));
                law_base64_length(bytes.skip(3));
                assert(s.skip(4) =~= base64_standard(bytes.skip(3)));
                assert(base64_decoded(s) =~= bytes);
            }
        }
    }
}

/// Padding comes only at the very end: `=` occurs in none but the last two
/// characters, and in none at all when the input is a whole number of groups
/// of three bytes.
pub proof fn law_base64_padding_at_end(bytes: Seq<u8>)
    ensures
        forall|i: int|
            0 <= i < base64_standard(bytes).len() && base64_standard(bytes)[i] == '=' ==> {
                &&& base64_standard(bytes).len() - 2 <= i
                &&& bytes.len() % 3 != 0
            },
    decreases bytes.len(),
{
    let s = base64_standard(bytes);
    law_base64_length(bytes);
    if bytes.len() > 0 {
        let b0 = bytes[0] as int;
        lemma_base64_digit(b0 / 4);
        if bytes.len() == 1 {
            lemma_base64_digit((b0 % 4) * 16);
        } else {
            let b1 = bytes[1] as int;
            lemma_base64_digit((b0 % 4) * 16 + b1 / 16);
            if bytes.len() == 2 {
                lemma_base64_digit((b1 % 16) * 4);
            } else {
                let b2 = bytes[2] as int;
                lemma_base64_digit((b1 % 16) * 4 + b2 / 64);
                lemma_base64_digit(b2 % 64);
                let rest = bytes.skip(3);
                law_base64_padding_at_end(rest);
                law_base64_length(rest);
                assert forall|i: int| 0 <= i < s.len() && s[i] == '=' implies s.len() - 2 <= i
                    && bytes.len() % 3 != 0 by {
                    if i >= 4 {
                        assert(s[i] == base64_standard(rest)[i - 4]);
                    }
                }
            }
        }
    }
}

/// Encoding can go a group of three bytes at a time: the Base64 of a
/// concatenation whose first part is a whole number of groups is the
/// concatenation of the two encodings.
pub proof fn law_base64_concat(a: Seq<u8>, b: Seq<u8>)
    requires
        a.len() % 3 == 0,
    ensures
        base64_standard(a + b) == base64_standard(a) + base64_standard(b),
    decreases a.len(),
{
    if a.len() == 0 {
        assert(a + b =~= b);
        assert(base64_standard(a) + base64_standard(b) =~= base64_standard(b));
    } else {
        let ab = a + b;
        assert(ab.skip(3) =~= a.skip(3) + b);
        law_base64_concat(a.skip(3), b);
        assert(ab[0] == a[0] && ab[1] == a[1] && ab[2] == a[2]);
        assert(base64_standard(ab) =~= base64_standard(a) + base64_standard(b));
    }
}

/// The MIME type detected for a file goes by the text after the last `.` of
/// its name, however many dots the name holds before it.
pub proof fn law_mime_from_last_extension(dir: Seq<char>, stem: Seq<char>, ext: Seq<char>)
    requires
        crate::paths::is_dir_prefix(dir),
        stem.len() > 0,
        stem + seq!['.'] + ext != seq!['.', '.'],
        forall|j: int| 0 <= j < stem.len() ==> stem[j] != '/',
        forall|j: int| 0 <= j < ext.len() ==> ext[j] != '/' && ext[j] != '.',
    ensures
        detected_mime((dir + stem + seq!['.'] + ext, None)) == mime_for(ext),
{
    crate::paths::law_extension_after_last_dot(dir, stem, ext);
}

/// The `data:` URI of a file's content.
pub open spec fn data_uri(mime: Seq<char>, content: Seq<u8>) -> Seq<char> {
    "data:"@ + mime + ";base64,"@ + base64_standard(content)
}

/// What a `data:` URI carries: after `data:`, the MIME type and `;base64,`
/// comes a payload that decodes to exactly the content, with `=` only in its
/// last two characters.
pub proof fn law_data_uri_payload(mime: Seq<char>, content: Seq<u8>)
    ensures
        ({
            let head = "data:"@ + mime + ";base64,"@;
            let uri = data_uri(mime, content);
            &&& uri.take(head.len() as int) == head
            &&& base64_decoded(uri.skip(head.len() as int)) == content
            &&& forall|i: int|
                head.len() <= i < uri.len() && #[trigger] uri[i] == '=' ==> uri.len() - 2 <= i
        }),
{
    let head = "data:"@ + mime + ";base64,"@;
    let uri = data_uri(mime, content);
    let payload = base64_standard(content);
    assert(uri.take(head.len() as int) =~= head);
    assert(uri.skip(head.len() as int) =~= payload);
    law_base64_round_trip(content);
    law_base64_padding_at_end(content);
    assert forall|i: int| head.len() <= i < uri.len() && #[trigger] uri[i] == '=' implies uri.len() - 2
        <= i by {
        assert(uri[i] == payload[i - head.len()]);
    }
}

/// The `data:` URI for the content of the file at `path`, with the MIME
/// type detected from the path.
pub fn encode_data_uri(path: &str, content: &[u8]) -> (s: String)
    requires
        (content@.len() + 2) / 3 * 4 <= usize::MAX,
    ensures
        s@ == data_uri(detected_mime((path@, None)), content@),
{
    let f = FileUpload::new(path.to_owned());
    let mime = f.detect_mime_type();
    let encoded = base64_encode(content);
    let mut s = "data:".to_owned();
    s.append(mime.as_str());
    s.append(";base64,");
    s.append(encoded.as_str());
    s
}

/// The state of a prediction.
#[derive(Clone, Copy, Debug, PartialEq, Eq, Structural)]
pub enum PredictionStatus {
    Starting,
    Processing,
    Succeeded,
    Failed,
    Canceled,
}

impl PredictionStatus {
    /// Whether a prediction in this state is over.
    pub open spec fn spec_is_terminal(self) -> bool {
        self is Succeeded || self is Failed || self is Canceled
    }

    /// Whether a prediction in this state is over.
    pub fn is_terminal(&self) -> (b: bool)
        ensures
            b == self.spec_is_terminal(),
    {
        match self {
            PredictionStatus::Succeeded | PredictionStatus::Failed | PredictionStatus::Canceled => true,
            _ => false,
        }
    }

    /// The status as its serialised name.
    pub fn as_name(&self) -> (s: &'static str)
        ensures
            s@ == status_name(*self),
    {
        match self {
            PredictionStatus::Starting => "starting",
            PredictionStatus::Processing => "processing",
            PredictionStatus::Succeeded => "succeeded",
            PredictionStatus::Failed => "failed",
            PredictionStatus::Canceled => "canceled",
        }
    }
}

/// The lower-case name of a status.
pub open spec fn status_name(s: PredictionStatus) -> Seq<char> {
    match s {
        PredictionStatus::Starting => "starting"@,
        PredictionStatus::Processing => "processing"@,
        PredictionStatus::Succeeded => "succeeded"@,
        PredictionStatus::Failed => "failed"@,
        PredictionStatus::Canceled => "canceled"@,
    }
}

/// Timings of a prediction, in seconds, each held as the bit pattern of
/// the IEEE-754 double that the provider reported.
#[derive(Clone, Copy, Debug)]
pub struct PredictionMetrics {
    pub predict_time: Option<u64>,
    pub total_time: Option<u64>,
}

/// Where a prediction can be read or cancelled.
pub struct PredictionUrls {
    pub get: Option<String>,
    pub cancel: Option<String>,
}

/// The result of a prediction.
pub struct PredictionResult {
    pub id: String,
    pub status: PredictionStatus,
    pub output: Option<Json>,
    pub error: Option<String>,
    pub metrics: Option<PredictionMetrics>,
    pub urls: Option<PredictionUrls>,
}

/// What is known of a model's inputs and outputs.
pub struct ModelSchema {
    pub name: String,
    pub description: Option<String>,
    pub input_schema: Json,
    pub output_schema: Option<Json>,
}

/// A model as a listing shows it.
pub struct ModelInfo {
    pub id: String,
    pub name: String,
    pub description: Option<String>,
    pub owner: Option<String>,
    pub url: Option<String>,
}

/// The mathematical form of prediction URLs.
pub open spec fn urls_view(u: PredictionUrls) -> (Option<Seq<char>>, Option<Seq<char>>) {
    (opt_view(u.get), opt_view(u.cancel))
}

/// The mathematical form of a prediction result.
pub struct PredictionResultV {
    pub id: Seq<char>,
    pub status: PredictionStatus,
    pub output: Option<JsonV>,
    pub error: Option<Seq<char>>,
    pub metrics: Option<PredictionMetrics>,
    pub urls: Option<(Option<Seq<char>>, Option<Seq<char>>)>,
}

impl View for PredictionResult {
    type V = PredictionResultV;

    open spec fn view(&self) -> PredictionResultV {
        PredictionResultV {
            id: self.id@,
            status: self.status,
            output: opt_json(self.output),
            error: opt_view(self.error),
            metrics: self.metrics,
            urls: match self.urls {
                Some(u) => Some(urls_view(u)),
                None => None,
            },
        }
    }
}

/// The mathematical form of a model schema.
pub struct ModelSchemaV {
    pub name: Seq<char>,
    pub description: Option<Seq<char>>,
    pub input_schema: JsonV,
    pub output_schema: Option<JsonV>,
}

impl View for ModelSchema {
    type V = ModelSchemaV;

    open spec fn view(&self) -> ModelSchemaV {
        ModelSchemaV {
            name: self.name@,
            description: opt_view(self.description),
            input_schema: self.input_schema@,
            output_schema: opt_json(self.output_schema),
        }
    }
}

/// The mathematical form of a model listing entry.
pub struct ModelInfoV {
    pub id: Seq<char>,
    pub name: Seq<char>,
    pub description: Option<Seq<char>>,
    pub owner: Option<Seq<char>>,
    pub url: Option<Seq<char>>,
}

impl View for ModelInfo {
    type V = ModelInfoV;

    open spec fn view(&self) -> ModelInfoV {
        ModelInfoV {
            id: self.id@,
            name: self.name@,
            description: opt_view(self.description),
            owner: opt_view(self.owner),
            url: opt_view(self.url),
        }
    }
}

/// The views of a list of models.
pub open spec fn infos_view(v: Seq<ModelInfo>) -> Seq<ModelInfoV> {
    Seq::new(v.len(), |i: int| v[i]@)
}

/// The first `limit` entries of a listing, or all of them when there are fewer.
pub open spec fn first_n<T>(s: Seq<T>, limit: nat) -> Seq<T> {
    if limit < s.len() {
        s.take(limit as int)
    } else {
        s
    }
}

/// Keeps at most the first `limit` entries of a listing.
pub fn keep_first(models: &mut Vec<ModelInfo>, limit: usize)
    ensures
        infos_view(final(models)@) == first_n(infos_view(old(models)@), limit as nat),
        final(models)@.len() <= limit,
{
    models.truncate(limit);
    assert(infos_view(models@) =~= first_n(infos_view(old(models)@), limit as nat));
}

/// Whether a byte is left as it is by percent-encoding: ASCII letters and
/// digits, `-`, `.`, `_` and `~`.
pub open spec fn unreserved(b: u8) -> bool {
    (0x30 <= b <= 0x39) || (0x41 <= b <= 0x5a) || (0x61 <= b <= 0x7a) || b == 0x2d || b == 0x2e
        || b == 0x5f || b == 0x7e
}

/// An upper-case hexadecimal digit.
pub open spec fn hex_upper(d: u8) -> char {
    if d < 10 {
        (0x30 + d) as char
    } else {
        (0x41 + d - 10) as char
    }
}

/// Percent-encoding of bytes: every byte that is not unreserved becomes
/// `%` and two upper-case hexadecimal digits.
pub open spec fn percent_encoded(bytes: Seq<u8>) -> Seq<char>
    decreases bytes.len(),
{
    if bytes.len() == 0 {
        Seq::empty()
    } else {
        let b = bytes[0];
        (if unreserved(b) {
            seq![b as char]
        } else {
            seq!['%', hex_upper(b / 16), hex_upper(b % 16)]
        }) + percent_encoded(bytes.drop_first())
    }
}

/// The one-character text of an upper-case hexadecimal digit.
fn hex_digit_str(d: u8) -> (s: &'static str)
    requires
        d < 16,
    ensures
        s@ == seq![hex_upper(d)],
{
    let digits = "0123456789ABCDEF";
    proof {
        reveal_strlit("0123456789ABCDEF");
    }
    assert(digits@[d as int] == hex_upper(d));
    let r = digits.substring_ascii(d as usize, d as usize + 1);
    assert(r@ =~= seq![hex_upper(d)]);
    r
}

/// Whether percent-encoding leaves byte `b` as it is.
fn is_unreserved(b: u8) -> (r: bool)
    ensures
        r == unreserved(b),
{
    (0x30 <= b && b <= 0x39) || (0x41 <= b && b <= 0x5a) || (0x61 <= b && b <= 0x7a) || b == 0x2d
        || b == 0x2e || b == 0x5f || b == 0x7e
}

/// The one-character text of an unreserved byte.
fn unreserved_str(b: u8) -> (s: &'static str)
    requires
        unreserved(b),
    ensures
        s@ == seq![b as char],
{
    let table = "0123456789ABCDEFGHIJKLMNOPQRSTUVWXYZabcdefghijklmnopqrstuvwxyz-._~";
    proof {
        reveal_strlit("0123456789ABCDEFGHIJKLMNOPQRSTUVWXYZabcdefghijklmnopqrstuvwxyz-._~");
    }
    let k: u8 = if b <= 0x39 && b >= 0x30 {
        b - 0x30
    } else if 0x41 <= b && b <= 0x5a {
        b - 0x41 + 10
    } else if 0x61 <= b && b <= 0x7a {
        b - 0x61 + 36
    } else if b == 0x2d {
        62
    } else if b == 0x2e {
        63
    } else if b == 0x5f {
        64
    } else {
        65
    };
    assert(table@[k as int] == b as char);
    let r = table.substring_ascii(k as usize, k as usize + 1);
    assert(r@ =~= seq![b as char]);
    r
}

/// Percent-encodes the UTF-8 bytes of `s`: letters, digits, `-`, `.`, `_`
/// and `~` kept, every other byte written as `%` and two upper-case
/// hexadecimal digits.
pub(crate) fn url_encode(s: &str) -> (r: String)
    ensures
        r@ == percent_encoded(vstd::utf8::encode_utf8(s@)),
{
    let bytes = s.as_bytes();
    let ghost all = bytes@;
    assert(all == vstd::utf8::encode_utf8(s@));
    let n = bytes.len();
    let mut r = String::new();
    let mut i: usize = 0;
    assert(all.skip(0) =~= all);
    assert(r@ + percent_encoded(all) =~= percent_encoded(all));
    while i < n
        invariant
            i <= n,
            n == all.len(),
            all == bytes@,
            r@ + percent_encoded(all.skip(i as int)) == percent_encoded(all),
        decreases n - i,
    {
        let b = bytes[i];
        let ghost before = r@;
        if is_unreserved(b) {
            r.append(unreserved_str(b));
        } else {
            r.append("%");
            r.append(hex_digit_str(b / 16));
            r.append(hex_digit_str(b % 16));
            proof {
                reveal_strlit("%");
            }
        }
        proof {
            let rest = all.skip(i as int);
            assert(rest.drop_first() =~= all.skip(i + 1));
            assert(rest[0] == b);
            assert(r@ + percent_encoded(all.skip(i + 1)) =~= before + percent_encoded(rest));
        }
        i = i + 1;
    }
    assert(all.skip(n as int) =~= Seq::<u8>::empty());
    assert(r@ =~= percent_encoded(all));
    r
}

/// The value of a hexadecimal digit, of either case.
pub open spec fn hex_value(c: char) -> int {
    if '0' <= c <= '9' {
        c as int - 0x30
    } else if 'A' <= c <= 'F' {
        c as int - 0x41 + 10
    } else if 'a' <= c <= 'f' {
        c as int - 0x61 + 10
    } else {
        0
    }
}

/// Percent-decoding: `%` and two hexadecimal digits give the byte they
/// spell; every other character gives its own code as a byte.
pub open spec fn percent_decoded(s: Seq<char>) -> Seq<u8>
    decreases s.len(),
{
    if s.len() == 0 {
        Seq::empty()
    } else if s[0] == '%' && s.len() >= 3 {
        seq![(hex_value(s[1]) * 16 + hex_value(s[2])) as u8] + percent_decoded(s.skip(3))
    } else {
        seq![(s[0] as u32) as u8] + percent_decoded(s.drop_first())
    }
}

/// Percent-decoding the percent-encoding of any bytes gives those bytes
/// back.
pub proof fn law_percent_round_trip(bytes: Seq<u8>)
    ensures
        percent_decoded(percent_encoded(bytes)) == bytes,
    decreases bytes.len(),
{
    if bytes.len() > 0 {
        let b = bytes[0];
        let rest = bytes.drop_first();
        let e = percent_encoded(bytes);
        law_percent_round_trip(rest);
        if unreserved(b) {
            assert(e.drop_first() =~= percent_encoded(rest));
            assert(((b as char) as u32) as u8 == b);
        } else {
            assert(e.skip(3) =~= percent_encoded(rest));
            assert(hex_value(hex_upper(b / 16)) * 16 + hex_value(hex_upper(b % 16)) == b);
        }
        assert(percent_decoded(e) =~= bytes);
    }
}

/// Whether `c` may stand in a percent-encoded text: `%` or an unreserved
/// ASCII character.
pub open spec fn url_safe_char(c: char) -> bool {
    c == '%' || (c as u32) < 0x80 && unreserved((c as u32) as u8)
}

/// Percent-encoding writes only unreserved characters and `%`: nothing in
/// its output can end a query value or start another.
pub proof fn law_percent_encoded_safe(bytes: Seq<u8>)
    ensures
        forall|i: int|
            0 <= i < percent_encoded(bytes).len() ==> url_safe_char(#[trigger] percent_encoded(bytes)[i]),
    decreases bytes.len(),
{
    if bytes.len() > 0 {
        let b = bytes[0];
        let rest = bytes.drop_first();
        let e = percent_encoded(bytes);
        law_percent_encoded_safe(rest);
        let k: int = if unreserved(b) { 1 } else { 3 };
        assert forall|i: int| 0 <= i < e.len() implies url_safe_char(#[trigger] e[i]) by {
            if i >= k {
                assert(e[i] == percent_encoded(rest)[i - k]);
            }
        }
    }
}

/// A query sent in a listing URL reads back as itself: percent-decoding the
/// encoded query gives exactly its UTF-8 bytes, whatever their number per
/// character, and those bytes decode to the query.
pub proof fn law_query_round_trip(q: Seq<char>)
    ensures
        percent_decoded(percent_encoded(vstd::utf8::encode_utf8(q))) == vstd::utf8::encode_utf8(q),
        vstd::utf8::decode_utf8(percent_decoded(percent_encoded(vstd::utf8::encode_utf8(q)))) == q,
{
    law_percent_round_trip(vstd::utf8::encode_utf8(q));
    vstd::utf8::encode_utf8_decode_utf8(q);
}

/// The view of an optional JSON value.
pub open spec fn opt_json(o: Option<Json>) -> Option<JsonV> {
    match o {
        Some(v) => Some(v@),
        None => None,
    }
}

/// The wait before the first poll, in milliseconds.
pub const FIRST_POLL_INTERVAL_MS: u64 = 500;

/// The longest wait between polls, in milliseconds.
pub const MAX_POLL_INTERVAL_MS: u64 = 5000;

/// The wait after one of `interval_ms`: twice as long, at most five seconds.
pub open spec fn next_interval(interval_ms: nat) -> nat {
    if 2 * interval_ms < 5000 {
        2 * interval_ms
    } else {
        5000
    }
}

/// The wait that follows one of `interval_ms` milliseconds.
pub fn next_poll_interval(interval_ms: u64) -> (r: u64)
    requires
        interval_ms <= 5000,
    ensures
        r == next_interval(interval_ms as nat),
{
    let doubled = interval_ms * 2;
    if doubled < MAX_POLL_INTERVAL_MS {
        doubled
    } else {
        MAX_POLL_INTERVAL_MS
    }
}

/// The wait before poll number `n` (counting from 0).
pub open spec fn interval_before(n: nat) -> nat
    decreases n,
{
    if n == 0 {
        500
    } else {
        next_interval(interval_before((n - 1) as nat))
    }
}

/// The waits between polls never shrink, never exceed five seconds and,
/// from the fifth poll on, are exactly five seconds.
pub proof fn law_poll_schedule(n: nat)
    ensures
        500 <= interval_before(n) <= 5000,
        interval_before(n) <= interval_before(n + 1),
        n >= 4 ==> interval_before(n) == 5000,
    decreases n,
{
    if n > 0 {
        law_poll_schedule((n - 1) as nat);
    }
    reveal_with_fuel(interval_before, 5);
}

/// Whether a poll loop has run past its timeout: strictly more time has
/// passed than the timeout allows.
pub fn has_timed_out(elapsed_nanos: u128, timeout_secs: u64) -> (b: bool)
    ensures
        b == (elapsed_nanos > timeout_secs * 1_000_000_000),
{
    let limit: u128 = (timeout_secs as u128) * 1_000_000_000u128;
    elapsed_nanos > limit
}

/// What a poll loop does next.
#[derive(Debug, PartialEq, Eq, Structural)]
pub enum PollAction {
    /// Stop with a timeout error.
    GiveUp,
    /// Ask the provider for the prediction's state.
    Fetch,
}

/// Before each request a poll loop checks its timeout.
pub fn poll_action(elapsed_nanos: u128, timeout_secs: u64) -> (a: PollAction)
    ensures
        a == (if elapsed_nanos > timeout_secs * 1_000_000_000 {
            PollAction::GiveUp
        } else {
            PollAction::Fetch
        }),
{
    if has_timed_out(elapsed_nanos, timeout_secs) {
        PollAction::GiveUp
    } else {
        PollAction::Fetch
    }
}

/// The message of a timed-out poll loop, `"<what> timed out after <n> seconds"`.
pub fn timed_out_message(what: &str, timeout_secs: u64) -> (m: String)
    ensures
        m@ == what@ + " timed out after "@ + decimal(timeout_secs as nat) + " seconds"@,
{
    let mut m = what.to_owned();
    m.append(" timed out after ");
    let n = decimal_string(timeout_secs);
    m.append(n.as_str());
    m.append(" seconds");
    m
}

/// Sets, in an object input, each named file's uploaded form; an input that
/// is not an object is left as it is.
pub open spec fn with_uploads(input: JsonV, uploads: Seq<(Seq<char>, Seq<char>)>) -> JsonV
    decreases uploads.len(),
{
    if uploads.len() == 0 {
        input
    } else {
        crate::json::with_member(
            with_uploads(input, uploads.drop_last()),
            uploads.last().0,
            JsonV::Str(uploads.last().1),
        )
    }
}

/// The view of a list of name/text pairs.
pub open spec fn pairs_view(v: Seq<(String, String)>) -> Seq<(Seq<char>, Seq<char>)> {
    Seq::new(v.len(), |i: int| (v[i].0@, v[i].1@))
}

/// Puts the uploaded files into the input, each under its parameter name,
/// in order.
pub fn insert_uploads(input: &mut Json, uploads: Vec<(String, String)>)
    ensures
        final(input)@ == with_uploads(old(input)@, pairs_view(uploads@)),
{
    let ghost all = pairs_view(uploads@);
    let ghost start = input@;
    let mut i: usize = 0;
    while i < uploads.len()
        invariant
            i <= uploads@.len(),
            all == pairs_view(uploads@),
            input@ == with_uploads(start, all.take(i as int)),
        decreases uploads@.len() - i,
    {
        assert(all.take(i + 1).drop_last() =~= all.take(i as int));
        let name = uploads[i].0.clone();
        let value = uploads[i].1.clone();
        input.insert_member(name, Json::Str(value));
        i = i + 1;
    }
    let n = uploads.len();
    assert(all.take(n as int) =~= all);
}

/// Putting uploads into an object input leaves an object.
pub proof fn lemma_uploads_keep_object(entries: Seq<(Seq<char>, JsonV)>, uploads: Seq<(Seq<char>, Seq<char>)>)
    ensures
        with_uploads(JsonV::Object(entries), uploads) is Object,
    decreases uploads.len(),
{
    if uploads.len() > 0 {
        lemma_uploads_keep_object(entries, uploads.drop_last());
    }
}

/// After the uploads are put into an object input, the parameter of the last
/// upload reads as that upload; an input that is not an object is unchanged.
pub proof fn law_last_upload_wins(input: JsonV, uploads: Seq<(Seq<char>, Seq<char>)>)
    requires
        uploads.len() > 0,
    ensures
        input is Object ==> crate::json::member(with_uploads(input, uploads), uploads.last().0)
            == Some(JsonV::Str(uploads.last().1)),
        !(input is Object) ==> with_uploads(input, uploads) == input,
    decreases uploads.len(),
{
    if input is Object {
        lemma_uploads_keep_object(input->Object_0, uploads.drop_last());
        let mid = with_uploads(input, uploads.drop_last());
        crate::json::law_member_after_set(
            mid->Object_0,
            uploads.last().0,
            JsonV::Str(uploads.last().1),
            uploads.last().0,
        );
    } else {
        lemma_uploads_non_object(input, uploads);
    }
}

proof fn lemma_uploads_non_object(input: JsonV, uploads: Seq<(Seq<char>, Seq<char>)>)
    requires
        !(input is Object),
    ensures
        with_uploads(input, uploads) == input,
    decreases uploads.len(),
{
    if uploads.len() > 0 {
        lemma_uploads_non_object(input, uploads.drop_last());
    }
}

/// File types are recognised by extension without regard to ASCII case.
pub proof fn law_mime_ignores_case(ext: Seq<char>)
    ensures
        mime_for(ext) == mime_for(ascii_lower_seq(ext)),
{
    crate::text::lemma_ascii_lower_idempotent(ext);
}

} // verus!
