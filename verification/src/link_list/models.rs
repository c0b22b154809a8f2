//! Result tiles and file details of the search page, and their icons.

use vstd::prelude::*;
use crate::text::{self, chars_of, contains_exec, equals_one_of, starts_with_exec, to_lowercase};

verus! {

/// One result tile shown on the search page.
#[derive(Clone, Debug)]
pub struct ResultTile {
    /// `"plgb"` or `"tgfs"`: which database the file came from.
    pub source: &'static str,
    /// Opaque id of the file's detail page.
    pub detail_id: String,
    pub file_name: String,
    pub file_size_fmt: String,
    pub icon: &'static str,
}

/// Full detail shown on a file's page.
#[derive(Clone, Debug)]
pub struct FileDetail {
    pub file_name: String,
    pub file_size_fmt: String,
    pub mime_type: String,
    pub icon: &'static str,
    pub dl_url: String,
    pub watch_url: String,
}

/// The part of a file name after its last `.` (the whole name when it has none).
pub open spec fn after_last_dot(s: Seq<char>) -> Seq<char>
    decreases s.len(),
{
    if s.len() == 0 {
        s
    } else if s.last() == '.' {
        Seq::empty()
    } else {
        after_last_dot(s.drop_last()).push(s.last())
    }
}

/// `s` is one of `opts`.
pub open spec fn one_of(s: Seq<char>, opts: Seq<&'static str>) -> bool {
    exists|i: int| 0 <= i < opts.len() && opts[i]@ == s
}

pub open spec fn video_exts() -> Seq<&'static str> {
    seq!["mp4", "mkv", "avi", "mov", "webm", "flv", "wmv", "m4v", "3gp"]
}

pub open spec fn audio_exts() -> Seq<&'static str> {
    seq!["mp3", "wav", "flac", "aac", "ogg", "m4a", "wma"]
}

pub open spec fn image_exts() -> Seq<&'static str> {
    seq!["jpg", "jpeg", "png", "gif", "webp", "bmp", "svg", "heic"]
}

pub open spec fn program_exts() -> Seq<&'static str> {
    seq!["exe", "msi", "apk", "app", "dmg", "deb", "appimage"]
}

pub open spec fn archive_exts() -> Seq<&'static str> {
    seq!["zip", "rar", "7z", "tar", "gz", "bz2", "xz"]
}

pub open spec fn text_exts() -> Seq<&'static str> {
    seq!["txt", "log", "csv", "json", "xml"]
}

/// The icon kind (0..=9, see [`icon_glyph`]) that a lower-cased mime type names,
/// or 10 when it names none: blank, `unknown`, `application/octet-stream` (what
/// most Telegram uploads are tagged as) and any other mime type outside the list.
pub open spec fn mime_kind(mime: Seq<char>) -> int {
    if text::starts_with(mime, "video/"@) {
        0
    } else if text::starts_with(mime, "audio/"@) {
        1
    } else if text::starts_with(mime, "image/"@) {
        2
    } else if mime == "application/pdf"@ {
        3
    } else if text::contains(mime, "android.package-archive"@) || text::contains(mime, "x-msdownload"@)
        || text::contains(mime, "x-executable"@) {
        4
    } else if text::contains(mime, "zip"@) || text::contains(mime, "compressed"@) || text::contains(
        mime,
        "archive"@,
    ) {
        5
    } else if text::contains(mime, "wordprocessingml"@) || text::contains(mime, "msword"@) {
        6
    } else if text::contains(mime, "spreadsheetml"@) || text::contains(mime, "ms-excel"@) {
        7
    } else if text::contains(mime, "presentationml"@) || text::contains(mime, "ms-powerpoint"@) {
        8
    } else if text::starts_with(mime, "text/"@) {
        9
    } else {
        10
    }
}

/// The icon kind that a lower-cased file extension names, or 10 when it names none.
pub open spec fn ext_kind(ext: Seq<char>) -> int {
    if one_of(ext, video_exts()) {
        0
    } else if one_of(ext, audio_exts()) {
        1
    } else if one_of(ext, image_exts()) {
        2
    } else if ext == "pdf"@ {
        3
    } else if one_of(ext, program_exts()) {
        4
    } else if one_of(ext, archive_exts()) {
        5
    } else if one_of(ext, seq!["doc", "docx"]) {
        6
    } else if one_of(ext, seq!["xls", "xlsx"]) {
        7
    } else if one_of(ext, seq!["ppt", "pptx"]) {
        8
    } else if one_of(ext, text_exts()) {
        9
    } else {
        10
    }
}

/// Which icon a lower-cased mime type and extension get: the kind the mime type
/// names, and only when it names none (missing or generic), the kind the
/// extension names.
pub open spec fn icon_kind(mime: Seq<char>, ext: Seq<char>) -> int {
    if mime_kind(mime) != 10 {
        mime_kind(mime)
    } else {
        ext_kind(ext)
    }
}

/// The emoji of each icon kind.
pub open spec fn icon_glyph(k: int) -> &'static str {
    if k == 0 {
        "🎬"
    } else if k == 1 {
        "🎵"
    } else if k == 2 {
        "🖼️"
    } else if k == 3 {
        "📕"
    } else if k == 4 {
        "⚙️"
    } else if k == 5 {
        "🗜️"
    } else if k == 6 {
        "📝"
    } else if k == 7 {
        "📊"
    } else if k == 8 {
        "📽️"
    } else if k == 9 {
        "📄"
    } else {
        "📁"
    }
}

fn ext_of(name: &[char]) -> (r: Vec<char>)
    ensures
        r@ == after_last_dot(name@),
{
    let mut k: usize = name.len();
    while k > 0 && name[k - 1] != '.'
        invariant
            k <= name@.len(),
            forall|j: int| k <= j < name@.len() ==> name@[j] != '.',
        decreases k,
    {
        k = k - 1;
    }
    proof {
        lemma_after_last_dot(name@, k as int);
    }
    text::slice_to_vec(name, k, name.len())
}

proof fn lemma_after_last_dot(s: Seq<char>, k: int)
    requires
        0 <= k <= s.len(),
        forall|j: int| k <= j < s.len() ==> s[j] != '.',
        k == 0 || s[k - 1] == '.',
    ensures
        after_last_dot(s) == s.subrange(k, s.len() as int),
    decreases s.len(),
{
    if s.len() == k {
        if s.len() > 0 {
            assert(s.last() == '.');
        }
    } else {
        lemma_after_last_dot(s.drop_last(), k);
        assert(s.subrange(k, s.len() as int) == s.drop_last().subrange(k, s.len() - 1).push(s.last()));
    }
}

fn mime_kind_exec(m: &[char]) -> (k: u8)
    ensures
        k == mime_kind(m@),
{
    let pdf = chars_of("application/pdf");
    if starts_with_exec(m, "video/") {
        0
    } else if starts_with_exec(m, "audio/") {
        1
    } else if starts_with_exec(m, "image/") {
        2
    } else if text::chars_eq(m, pdf.as_slice()) {
        3
    } else if contains_exec(m, "android.package-archive") || contains_exec(m, "x-msdownload")
        || contains_exec(m, "x-executable") {
        4
    } else if contains_exec(m, "zip") || contains_exec(m, "compressed") || contains_exec(m, "archive") {
        5
    } else if contains_exec(m, "wordprocessingml") || contains_exec(m, "msword") {
        6
    } else if contains_exec(m, "spreadsheetml") || contains_exec(m, "ms-excel") {
        7
    } else if contains_exec(m, "presentationml") || contains_exec(m, "ms-powerpoint") {
        8
    } else if starts_with_exec(m, "text/") {
        9
    } else {
        10
    }
}

fn ext_kind_exec(e: &[char]) -> (k: u8)
    ensures
        k == ext_kind(e@),
{
    let video: [&str; 9] = ["mp4", "mkv", "avi", "mov", "webm", "flv", "wmv", "m4v", "3gp"];
    let audio: [&str; 7] = ["mp3", "wav", "flac", "aac", "ogg", "m4a", "wma"];
    let image: [&str; 8] = ["jpg", "jpeg", "png", "gif", "webp", "bmp", "svg", "heic"];
    let program: [&str; 7] = ["exe", "msi", "apk", "app", "dmg", "deb", "appimage"];
    let archive: [&str; 7] = ["zip", "rar", "7z", "tar", "gz", "bz2", "xz"];
    let word: [&str; 2] = ["doc", "docx"];
    let sheet: [&str; 2] = ["xls", "xlsx"];
    let slides: [&str; 2] = ["ppt", "pptx"];
    let texts: [&str; 5] = ["txt", "log", "csv", "json", "xml"];
    proof {
        assert(video@ == video_exts());
        assert(audio@ == audio_exts());
        assert(image@ == image_exts());
        assert(program@ == program_exts());
        assert(archive@ == archive_exts());
        assert(word@ == seq!["doc", "docx"]);
        assert(sheet@ == seq!["xls", "xlsx"]);
        assert(slides@ == seq!["ppt", "pptx"]);
        assert(texts@ == text_exts());
    }
    let pdf_ext = chars_of("pdf");
    if equals_one_of(e, &video) {
        0
    } else if equals_one_of(e, &audio) {
        1
    } else if equals_one_of(e, &image) {
        2
    } else if text::chars_eq(e, pdf_ext.as_slice()) {
        3
    } else if equals_one_of(e, &program) {
        4
    } else if equals_one_of(e, &archive) {
        5
    } else if equals_one_of(e, &word) {
        6
    } else if equals_one_of(e, &sheet) {
        7
    } else if equals_one_of(e, &slides) {
        8
    } else if equals_one_of(e, &texts) {
        9
    } else {
        10
    }
}

/// The icon of a file whose mime type and extension are already lower-cased.
pub fn icon_for_lowered(mime_lower: &str, ext_lower: &str) -> (icon: &'static str)
    ensures
        icon == icon_glyph(icon_kind(mime_lower@, ext_lower@)),
{
    let m = chars_of(mime_lower);
    let mut k = mime_kind_exec(m.as_slice());
    if k == 10 {
        let e = chars_of(ext_lower);
        k = ext_kind_exec(e.as_slice());
    }
    if k == 0 {
        "🎬"
    } else if k == 1 {
        "🎵"
    } else if k == 2 {
        "🖼️"
    } else if k == 3 {
        "📕"
    } else if k == 4 {
        "⚙️"
    } else if k == 5 {
        "🗜️"
    } else if k == 6 {
        "📝"
    } else if k == 7 {
        "📊"
    } else if k == 8 {
        "📽️"
    } else if k == 9 {
        "📄"
    } else {
        "📁"
    }
}

/// Picks a representative emoji for a file based on its mime type, falling back to the
/// file extension when the mime type is missing or generic.
pub fn icon_for(mime_type: &str, file_name: &str) -> (icon: &'static str)
    ensures
        icon == icon_glyph(
            icon_kind(text::lowercase(mime_type@), text::lowercase(after_last_dot(file_name@))),
        ),
{
    let mime_s = to_lowercase(mime_type);
    let name = chars_of(file_name);
    let ext_raw = ext_of(name.as_slice());
    let ext_raw_s = text::string_of(ext_raw.as_slice());
    let ext_s = to_lowercase(ext_raw_s.as_str());
    icon_for_lowered(mime_s.as_str(), ext_s.as_str())
}

} // verus!
