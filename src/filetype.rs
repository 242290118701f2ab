use crate::error::CheckError;
use magic::{Cookie, CookieFlags, MagicError};
use vstd::prelude::*;
use vstd::string::StrSliceExecFns;

verus! {

/// The kinds of audio file that content sniffing tells apart.
#[derive(PartialEq, Eq, Structural, Clone, Copy, Debug)]
pub enum Filetype {
    WAV,
    FLAC,
    MP3,
    Vorbis,
    Opus,
}

pub open spec fn flac_token() -> Seq<char> {
    seq!['F', 'L', 'A', 'C']
}

pub open spec fn mpeg_token() -> Seq<char> {
    seq!['M', 'P', 'E', 'G']
}

pub open spec fn layer3_token() -> Seq<char> {
    seq!['I', 'I', 'I']
}

pub open spec fn vorbis_token() -> Seq<char> {
    seq!['V', 'o', 'r', 'b', 'i', 's']
}

pub open spec fn opus_token() -> Seq<char> {
    seq!['O', 'p', 'u', 's']
}

pub open spec fn wave_token() -> Seq<char> {
    seq!['W', 'A', 'V', 'E']
}

/// `pat` occurs in `s` as a contiguous run of characters.
pub open spec fn contains(s: Seq<char>, pat: Seq<char>) -> bool {
    exists|i: int| 0 <= i && i + pat.len() <= s.len() && #[trigger] s.subrange(i, i + pat.len()) == pat
}

/// The filetype that a content description names, tried in a fixed order:
/// "FLAC", then "MPEG" together with "III", then "Vorbis", "Opus" and "WAVE".
pub open spec fn classify(desc: Seq<char>) -> Option<Filetype> {
    if contains(desc, flac_token()) {
        Some(Filetype::FLAC)
    } else if contains(desc, mpeg_token()) && contains(desc, layer3_token()) {
        Some(Filetype::MP3)
    } else if contains(desc, vorbis_token()) {
        Some(Filetype::Vorbis)
    } else if contains(desc, opus_token()) {
        Some(Filetype::Opus)
    } else if contains(desc, wave_token()) {
        Some(Filetype::WAV)
    } else {
        None
    }
}

impl Filetype {
    /// The usual file extension.
    pub fn extension(&self) -> (r: &'static str)
        ensures
            r@ == (match self {
                Filetype::WAV => "wav"@,
                Filetype::FLAC => "flac"@,
                Filetype::MP3 => "mp3"@,
                Filetype::Vorbis => "ogg"@,
                Filetype::Opus => "opus"@,
            }),
    {
        match self {
            Filetype::WAV => "wav",
            Filetype::FLAC => "flac",
            Filetype::MP3 => "mp3",
            Filetype::Vorbis => "ogg",
            Filetype::Opus => "opus",
        }
    }

    /// The name shown to people.
    pub fn name(&self) -> (r: &'static str)
        ensures
            r@ == (match self {
                Filetype::WAV => "Wave"@,
                Filetype::FLAC => "FLAC"@,
                Filetype::MP3 => "MP3"@,
                Filetype::Vorbis => "Vorbis"@,
                Filetype::Opus => "Opus"@,
            }),
    {
        match self {
            Filetype::WAV => "Wave",
            Filetype::FLAC => "FLAC",
            Filetype::MP3 => "MP3",
            Filetype::Vorbis => "Vorbis",
            Filetype::Opus => "Opus",
        }
    }
}

/// The characters of a string, one by one.
fn chars_of(s: &str) -> (r: Vec<char>)
    ensures
        r@ == s@,
{
    let n = s.unicode_len();
    let mut out: Vec<char> = Vec::new();
    let mut i: usize = 0;
    while i < n
        invariant
            n == s@.len(),
            i <= n,
            out@ == s@.subrange(0, i as int),
        decreases n - i,
    {
        out.push(s.get_char(i));
        assert(out@ =~= s@.subrange(0, i as int + 1));
        i = i + 1;
    }
    assert(s@.subrange(0, n as int) =~= s@);
    out
}

/// Whether `pat` occurs in `hay` starting at index `at`.
fn matches_at(hay: &Vec<char>, pat: &[char], at: usize) -> (r: bool)
    requires
        at + pat@.len() <= hay@.len(),
    ensures
        r == (hay@.subrange(at as int, at + pat@.len()) == pat@),
{
    let n = hay.len();
    let mut k: usize = 0;
    while k < pat.len()
        invariant
            n == hay@.len(),
            at + pat@.len() <= n,
            k <= pat@.len(),
            forall|j: int| 0 <= j < k ==> hay@[at + j] == pat@[j],
        decreases pat@.len() - k,
    {
        if hay[at + k] != pat[k] {
            assert(hay@.subrange(at as int, at + pat@.len())[k as int] != pat@[k as int]);
            return false;
        }
        k = k + 1;
    }
    assert(hay@.subrange(at as int, at + pat@.len()) =~= pat@);
    true
}

/// Whether `pat` occurs anywhere in `hay`.
fn find_token(hay: &Vec<char>, pat: &[char]) -> (r: bool)
    ensures
        r == contains(hay@, pat@),
{
    if pat.len() > hay.len() {
        return false;
    }
    if pat.len() == 0 {
        assert(hay@.subrange(0, 0 + pat@.len() as int) =~= pat@);
        return true;
    }
    let n = hay.len();
    let last = n - pat.len();
    let mut i: usize = 0;
    while i < last + 1
        invariant
            n == hay@.len(),
            last + pat@.len() == hay@.len(),
            pat@.len() > 0,
            i <= last + 1,
            forall|j: int| 0 <= j < i ==> #[trigger] hay@.subrange(j, j + pat@.len()) != pat@,
        decreases last + 1 - i,
    {
        if matches_at(hay, pat, i) {
            return true;
        }
        i = i + 1;
    }
    false
}

/// The filetype named by a content description, if any.
pub fn classify_description(desc: &str) -> (r: Option<Filetype>)
    ensures
        r == classify(desc@),
        contains(desc@, flac_token()) ==> r == Some(Filetype::FLAC),
{
    let hay = chars_of(desc);
    if find_token(&hay, &['F', 'L', 'A', 'C']) {
        Some(Filetype::FLAC)
    } else if find_token(&hay, &['M', 'P', 'E', 'G']) && find_token(&hay, &['I', 'I', 'I']) {
        Some(Filetype::MP3)
    } else if find_token(&hay, &['V', 'o', 'r', 'b', 'i', 's']) {
        Some(Filetype::Vorbis)
    } else if find_token(&hay, &['O', 'p', 'u', 's']) {
        Some(Filetype::Opus)
    } else if find_token(&hay, &['W', 'A', 'V', 'E']) {
        Some(Filetype::WAV)
    } else {
        None
    }
}

/// The filetype named by a content description; a description that names none
/// is refused with the file's extension.
pub fn filetype_of_description(desc: &str, extension: &str) -> (r: Result<Filetype, CheckError>)
    ensures
        classify(desc@) is Some ==> r == Ok::<Filetype, CheckError>(classify(desc@)->Some_0),
        classify(desc@) is None ==> (r matches Err(CheckError::UnsupportedFiletype(e)) && e@ == extension@),
{
    match classify_description(desc) {
        Some(t) => Ok(t),
        None => Err(CheckError::UnsupportedFiletype(extension.to_owned())),
    }
}

/// A libmagic handle of the magic crate, held opaque.
#[verifier::external_type_specification]
#[verifier::external_body]
pub struct ExCookie(Cookie);

/// Relies on `magic::Cookie::open` with the default flags: sets up a libmagic
/// handle, or reports why it could not.
#[verifier::external_body]
fn open_cookie() -> (r: Result<Cookie, MagicError>) {
    Cookie::open(CookieFlags::default())
}

/// Relies on `magic::Cookie::load` with no file names: loads the system's
/// default signature database into the handle.
#[verifier::external_body]
fn load_default_database(cookie: &Cookie) -> (r: Result<(), MagicError>) {
    cookie.load::<&str>(&[])
}

/// Relies on `magic::Cookie::buffer`: the free-text description that the
/// loaded database gives of the bytes. What it says depends on that database,
/// so nothing is promised of it. (The crate unwraps the description as UTF-8;
/// libmagic's descriptions are text.)
#[verifier::external_body]
fn describe_bytes(cookie: &Cookie, data: &[u8]) -> (r: Result<String, MagicError>) {
    cookie.buffer(data)
}

/// Opens a content-sniffing handle; failure to set it up is
/// `ClassificationUnavailable`.
pub fn open_classifier() -> (r: Result<Cookie, CheckError>)
    ensures
        r is Err ==> r->Err_0 is ClassificationUnavailable,
{
    match open_cookie() {
        Ok(c) => Ok(c),
        Err(e) => Err(CheckError::ClassificationUnavailable(e)),
    }
}

/// Loads the default signature database into the handle; failure is
/// `ClassificationUnavailable`.
pub fn find_magic(cookie: &Cookie) -> (r: Result<(), CheckError>)
    ensures
        r is Err ==> r->Err_0 is ClassificationUnavailable,
{
    match load_default_database(cookie) {
        Ok(()) => Ok(()),
        Err(e) => Err(CheckError::ClassificationUnavailable(e)),
    }
}

/// Classifies file content by sniffing: the description libmagic gives of the
/// bytes decides the filetype as `filetype_of_description` says. A backend
/// failure is `ClassificationUnavailable`; content that names no filetype is
/// `UnsupportedFiletype` with the extension.
pub fn get_filetype(data: &[u8], extension: &str, cookie: &Cookie) -> (r: Result<Filetype, CheckError>)
    ensures
        r is Err ==> (r->Err_0 is ClassificationUnavailable || (r matches Err(
            CheckError::UnsupportedFiletype(e),
        ) && e@ == extension@)),
{
    match describe_bytes(cookie, data) {
        Ok(desc) => filetype_of_description(desc.as_str(), extension),
        Err(e) => Err(CheckError::ClassificationUnavailable(e)),
    }
}

} // verus!
