//! Media references of DingTalk replies: URL or local path, upload kind, file name,
//! MIME type.

use vstd::prelude::*;

use crate::text::{
    ascii_lower_chars, ascii_lower_seq, chars_of, find_char, first_index_of, has_char, lemma_first_index,
    push_all, slice_vec, starts_with_chars, starts_with_spec, string_of, trim_chars, trim_spec, trim_str,
};

verus! {

/// What `Path::file_name` gives for a path (as text), when it is valid UTF-8.
pub uninterp spec fn path_file_name_result(p: Seq<char>) -> Option<Seq<char>>;

/// What `Path::extension` gives for a path (as text), when it is valid UTF-8.
pub uninterp spec fn path_extension_result(p: Seq<char>) -> Option<Seq<char>>;

/// `Path::new(p).file_name()` read back as text; the final component of the path,
/// `None` when there is none (e.g. the path ends in `..`). Path component rules are
/// named here and not restated.
#[verifier::external_body]
fn path_file_name(p: &str) -> (r: Option<String>)
    ensures
        match path_file_name_result(p@) {
            Some(n) => r matches Some(s) && s@ == n,
            None => r is None,
        },
{
    std::path::Path::new(p).file_name().and_then(|n| n.to_str()).map(|s| s.to_string())
}

/// `Path::new(p).extension()` read back as text; the part of the file name after its
/// last `.`, `None` when the file name has no such part. Named, not restated.
#[verifier::external_body]
fn path_extension(p: &str) -> (r: Option<String>)
    ensures
        match path_extension_result(p@) {
            Some(n) => r matches Some(s) && s@ == n,
            None => r is None,
        },
{
    std::path::Path::new(p).extension().and_then(|e| e.to_str()).map(|s| s.to_string())
}

/// A reference is an HTTP(S) URL when it starts with `http://` or `https://` in any ASCII case.
pub open spec fn is_http_url_spec(p: Seq<char>) -> bool {
    starts_with_spec(ascii_lower_seq(p), "http://"@) || starts_with_spec(ascii_lower_seq(p), "https://"@)
}

/// Whether a media reference is an HTTP(S) URL.
pub fn is_http_url(path: &str) -> (b: bool)
    ensures
        b == is_http_url_spec(path@),
{
    let c = chars_of(path);
    let lower = ascii_lower_chars(c.as_slice());
    let a = chars_of("http://");
    let b = chars_of("https://");
    starts_with_chars(lower.as_slice(), a.as_slice()) || starts_with_chars(lower.as_slice(), b.as_slice())
}

/// `s` up to its first `?` (all of `s` when it has none).
pub open spec fn before_query(s: Seq<char>) -> Seq<char> {
    if has_char(s, '?') {
        s.take(first_index_of(s, '?'))
    } else {
        s
    }
}

fn before_query_exec(s: &[char]) -> (v: Vec<char>)
    ensures
        v@ == before_query(s@),
{
    match find_char(s, '?') {
        Some(i) => {
            proof {
                lemma_first_index(s@, '?', i as int);
            }
            let v = slice_vec(s, 0, i);
            assert(v@ =~= s@.take(i as int));
            v
        },
        None => slice_vec(s, 0, s.len()),
    }
}

/// The lower-case extension (with its dot) of a media reference; URLs lose their
/// query first. Empty when there is no extension.
pub open spec fn extension_spec(media_ref: Seq<char>) -> Seq<char> {
    let path_part = if is_http_url_spec(media_ref) { before_query(media_ref) } else { media_ref };
    match path_extension_result(path_part) {
        Some(e) => "."@ + ascii_lower_seq(e),
        None => Seq::empty(),
    }
}

/// The lower-case extension of a media reference, e.g. `.jpg`.
pub fn extract_extension(media_ref: &str) -> (r: String)
    ensures
        r@ == extension_spec(media_ref@),
{
    let c = chars_of(media_ref);
    let path_part = if is_http_url(media_ref) {
        before_query_exec(c.as_slice())
    } else {
        c
    };
    let ps = string_of(path_part.as_slice());
    match path_extension(ps.as_str()) {
        Some(e) => {
            let ec = chars_of(e.as_str());
            let lower = ascii_lower_chars(ec.as_slice());
            let mut v = chars_of(".");
            push_all(&mut v, lower.as_slice());
            string_of(v.as_slice())
        },
        None => String::new(),
    }
}

/// Image extensions.
pub open spec fn image_exts() -> Seq<Seq<char>> {
    seq![".jpg"@, ".jpeg"@, ".png"@, ".gif"@, ".bmp"@, ".webp"@]
}

/// Audio extensions.
pub open spec fn audio_exts() -> Seq<Seq<char>> {
    seq![".amr"@, ".mp3"@, ".wav"@, ".ogg"@, ".m4a"@, ".aac"@]
}

/// Video extensions.
pub open spec fn video_exts() -> Seq<Seq<char>> {
    seq![".mp4"@, ".mov"@, ".avi"@, ".mkv"@, ".webm"@]
}

/// The upload kind that an extension selects.
pub open spec fn upload_type_of_ext(ext: Seq<char>) -> Seq<char> {
    if image_exts().contains(ext) {
        "image"@
    } else if audio_exts().contains(ext) {
        "voice"@
    } else if video_exts().contains(ext) {
        "video"@
    } else {
        "file"@
    }
}

fn str_eq(a: &str, b: &str) -> (r: bool)
    ensures
        r == (a@ == b@),
{
    String::from_str(a) == String::from_str(b)
}

fn one_of(s: &str, list: &[&str]) -> (b: bool)
    ensures
        b == exists|i: int| 0 <= i < list@.len() && list@[i]@ == s@,
{
    let mut i: usize = 0;
    while i < list.len()
        invariant
            i <= list@.len(),
            forall|j: int| 0 <= j < i ==> list@[j]@ != s@,
        decreases list@.len() - i,
    {
        if str_eq(list[i], s) {
            return true;
        }
        i = i + 1;
    }
    false
}

proof fn lemma_list_views(list: Seq<&str>, views: Seq<Seq<char>>, s: Seq<char>)
    requires
        list.len() == views.len(),
        forall|i: int| 0 <= i < list.len() ==> #[trigger] list[i]@ == views[i],
    ensures
        (exists|i: int| 0 <= i < list.len() && list[i]@ == s) == views.contains(s),
{
    if views.contains(s) {
        let i = choose|i: int| 0 <= i < views.len() && views[i] == s;
        assert(list[i]@ == s);
    }
}

/// The upload kind of a media reference: `image`, `voice`, `video` or `file`.
pub fn guess_upload_type(media_ref: &str) -> (r: &'static str)
    ensures
        r@ == upload_type_of_ext(extension_spec(media_ref@)),
{
    let ext = extract_extension(media_ref);
    let images: [&str; 6] = [".jpg", ".jpeg", ".png", ".gif", ".bmp", ".webp"];
    let audios: [&str; 6] = [".amr", ".mp3", ".wav", ".ogg", ".m4a", ".aac"];
    let videos: [&str; 5] = [".mp4", ".mov", ".avi", ".mkv", ".webm"];
    proof {
        lemma_list_views(images@, image_exts(), ext@);
        lemma_list_views(audios@, audio_exts(), ext@);
        lemma_list_views(videos@, video_exts(), ext@);
    }
    if one_of(ext.as_str(), images.as_slice()) {
        "image"
    } else if one_of(ext.as_str(), audios.as_slice()) {
        "voice"
    } else if one_of(ext.as_str(), videos.as_slice()) {
        "video"
    } else {
        "file"
    }
}

/// The path part of a media reference: a URL without its query, a `file://` URL
/// without its scheme, or the reference itself.
pub open spec fn path_part_spec(media_ref: Seq<char>) -> Seq<char> {
    if is_http_url_spec(media_ref) {
        before_query(media_ref)
    } else if starts_with_spec(media_ref, "file://"@) {
        media_ref.skip(7)
    } else {
        media_ref
    }
}

/// The fallback file name of each upload kind.
pub open spec fn fallback_name(upload_type: Seq<char>) -> Seq<char> {
    if upload_type == "image"@ {
        "image.jpg"@
    } else if upload_type == "voice"@ {
        "audio.amr"@
    } else if upload_type == "video"@ {
        "video.mp4"@
    } else {
        "file.bin"@
    }
}

/// The file name of a media reference, or the fallback of its upload kind.
pub open spec fn filename_spec(media_ref: Seq<char>, upload_type: Seq<char>) -> Seq<char> {
    let name = match path_file_name_result(path_part_spec(media_ref)) {
        Some(n) => n,
        None => Seq::empty(),
    };
    if name.len() == 0 { fallback_name(upload_type) } else { name }
}

/// The file name to upload a media reference under.
pub fn guess_filename(media_ref: &str, upload_type: &str) -> (r: String)
    ensures
        r@ == filename_spec(media_ref@, upload_type@),
{
    proof {
        reveal_strlit("file://");
    }
    let c = chars_of(media_ref);
    let n = c.len();
    let prefix = chars_of("file://");
    let part = if is_http_url(media_ref) {
        before_query_exec(c.as_slice())
    } else if starts_with_chars(c.as_slice(), prefix.as_slice()) {
        let v = slice_vec(c.as_slice(), 7, n);
        assert(v@ =~= media_ref@.skip(7));
        v
    } else {
        c
    };
    let ps = string_of(part.as_slice());
    let name = match path_file_name(ps.as_str()) {
        Some(s) => s,
        None => String::new(),
    };
    if name.as_str().is_empty() {
        if str_eq(upload_type, "image") {
            String::from_str("image.jpg")
        } else if str_eq(upload_type, "voice") {
            String::from_str("audio.amr")
        } else if str_eq(upload_type, "video") {
            String::from_str("video.mp4")
        } else {
            String::from_str("file.bin")
        }
    } else {
        name
    }
}

/// The MIME type of each known extension.
pub open spec fn mime_of_ext(ext: Seq<char>) -> Seq<char> {
    if ext == ".jpg"@ || ext == ".jpeg"@ { "image/jpeg"@ }
    else if ext == ".png"@ { "image/png"@ }
    else if ext == ".gif"@ { "image/gif"@ }
    else if ext == ".bmp"@ { "image/bmp"@ }
    else if ext == ".webp"@ { "image/webp"@ }
    else if ext == ".amr"@ { "audio/amr"@ }
    else if ext == ".mp3"@ { "audio/mpeg"@ }
    else if ext == ".wav"@ { "audio/wav"@ }
    else if ext == ".ogg"@ { "audio/ogg"@ }
    else if ext == ".m4a"@ { "audio/mp4"@ }
    else if ext == ".aac"@ { "audio/aac"@ }
    else if ext == ".mp4"@ { "video/mp4"@ }
    else if ext == ".mov"@ { "video/quicktime"@ }
    else if ext == ".avi"@ { "video/x-msvideo"@ }
    else if ext == ".mkv"@ { "video/x-matroska"@ }
    else if ext == ".webm"@ { "video/webm"@ }
    else { "application/octet-stream"@ }
}

/// The MIME type of a file name, by its extension.
pub fn guess_mime_type(filename: &str) -> (r: &'static str)
    ensures
        r@ == mime_of_ext(extension_spec(filename@)),
{
    let ext = extract_extension(filename);
    let e = ext.as_str();
    if str_eq(e, ".jpg") || str_eq(e, ".jpeg") { "image/jpeg" }
    else if str_eq(e, ".png") { "image/png" }
    else if str_eq(e, ".gif") { "image/gif" }
    else if str_eq(e, ".bmp") { "image/bmp" }
    else if str_eq(e, ".webp") { "image/webp" }
    else if str_eq(e, ".amr") { "audio/amr" }
    else if str_eq(e, ".mp3") { "audio/mpeg" }
    else if str_eq(e, ".wav") { "audio/wav" }
    else if str_eq(e, ".ogg") { "audio/ogg" }
    else if str_eq(e, ".m4a") { "audio/mp4" }
    else if str_eq(e, ".aac") { "audio/aac" }
    else if str_eq(e, ".mp4") { "video/mp4" }
    else if str_eq(e, ".mov") { "video/quicktime" }
    else if str_eq(e, ".avi") { "video/x-msvideo" }
    else if str_eq(e, ".mkv") { "video/x-matroska" }
    else if str_eq(e, ".webm") { "video/webm" }
    else { "application/octet-stream" }
}

/// The `fileType` of a `sampleFile` message: the extension without its dot, with
/// `jpeg` written `jpg`.
pub open spec fn sample_file_type_spec(filename: Seq<char>) -> Seq<char> {
    let ext = extension_spec(filename);
    let t = if ext.len() > 0 && ext[0] == '.' { ext.skip(1) } else { ext };
    if t == "jpeg"@ { "jpg"@ } else { t }
}

/// The `fileType` field of a `sampleFile` message for a file name.
pub fn sample_file_type(filename: &str) -> (r: String)
    ensures
        r@ == sample_file_type_spec(filename@),
{
    let ext = extract_extension(filename);
    let c = chars_of(ext.as_str());
    let n = c.len();
    let t = if n > 0 && c[0] == '.' { slice_vec(c.as_slice(), 1, n) } else { c };
    assert(ext@.len() > 0 && ext@[0] == '.' ==> t@ =~= ext@.skip(1));
    let ts = string_of(t.as_slice());
    if str_eq(ts.as_str(), "jpeg") {
        String::from_str("jpg")
    } else {
        ts
    }
}

/// Whether an image URL is first sent as it is (`photoURL`) before uploading.
pub fn sends_url_directly(media_ref: &str) -> (b: bool)
    ensures
        b == (upload_type_of_ext(extension_spec(media_ref@)) == "image"@ && is_http_url_spec(media_ref@)),
{
    let t = guess_upload_type(media_ref);
    str_eq(t, "image") && is_http_url(media_ref)
}

/// The next step of sending one media reference.
pub enum MediaAction {
    /// Nothing more: the media was sent, or the reference is blank.
    Done,
    /// Send the image by its URL.
    SendPhotoUrl,
    /// Read the media's bytes and upload them.
    ReadAndUpload,
    /// Send the uploaded image by its media id.
    SendImageById,
    /// Send the uploaded media as a file.
    SendFile,
}

/// The first step for a media reference: nothing for a blank one; an image URL is
/// first sent as a URL; anything else is read and uploaded.
pub open spec fn first_media_action_spec(media_ref: Seq<char>) -> MediaAction {
    let r = trim_spec(media_ref);
    if r.len() == 0 {
        MediaAction::Done
    } else if upload_type_of_ext(extension_spec(r)) == "image"@ && is_http_url_spec(r) {
        MediaAction::SendPhotoUrl
    } else {
        MediaAction::ReadAndUpload
    }
}

/// The first step for a media reference (see `first_media_action_spec`).
pub fn first_media_action(media_ref: &str) -> (a: MediaAction)
    ensures
        a == first_media_action_spec(media_ref@),
{
    let r = trim_str(media_ref);
    if r.as_str().is_empty() {
        MediaAction::Done
    } else if sends_url_directly(r.as_str()) {
        MediaAction::SendPhotoUrl
    } else {
        MediaAction::ReadAndUpload
    }
}

/// The step after `done` succeeded (`ok`) or failed: a sent image URL or image id
/// ends it; a failed image URL falls back to uploading; an upload leads to sending
/// an image by id (images) or a file; a failed image id falls back to a file.
/// `None` when the failure ends the attempt (the upload, or the file).
pub fn next_media_action(upload_type: &str, done: MediaAction, ok: bool) -> (a: Option<MediaAction>)
    ensures
        match done {
            MediaAction::Done => a == Some(MediaAction::Done),
            MediaAction::SendPhotoUrl => a == Some(if ok { MediaAction::Done } else { MediaAction::ReadAndUpload }),
            MediaAction::ReadAndUpload => a == if !ok {
                None
            } else if upload_type@ == "image"@ {
                Some(MediaAction::SendImageById)
            } else {
                Some(MediaAction::SendFile)
            },
            MediaAction::SendImageById => a == Some(if ok { MediaAction::Done } else { MediaAction::SendFile }),
            MediaAction::SendFile => a == if ok { Some(MediaAction::Done) } else { None },
        },
{
    match done {
        MediaAction::Done => Some(MediaAction::Done),
        MediaAction::SendPhotoUrl => Some(if ok { MediaAction::Done } else { MediaAction::ReadAndUpload }),
        MediaAction::ReadAndUpload => if !ok {
            None
        } else if str_eq(upload_type, "image") {
            Some(MediaAction::SendImageById)
        } else {
            Some(MediaAction::SendFile)
        },
        MediaAction::SendImageById => Some(if ok { MediaAction::Done } else { MediaAction::SendFile }),
        MediaAction::SendFile => if ok { Some(MediaAction::Done) } else { None },
    }
}

/// The local path of a media reference: without a leading `file://`.
pub open spec fn local_path_spec(media_ref: Seq<char>) -> Seq<char> {
    if starts_with_spec(media_ref, "file://"@) {
        media_ref.skip(7)
    } else {
        media_ref
    }
}

/// The local path of a media reference (see `local_path_spec`).
pub fn local_media_path(media_ref: &str) -> (r: String)
    ensures
        r@ == local_path_spec(media_ref@),
{
    proof {
        reveal_strlit("file://");
    }
    let c = chars_of(media_ref);
    let p = chars_of("file://");
    if starts_with_chars(c.as_slice(), p.as_slice()) {
        let rest = slice_vec(c.as_slice(), 7, c.len());
        assert(rest@ =~= media_ref@.skip(7));
        string_of(rest.as_slice())
    } else {
        String::from_str(media_ref)
    }
}

/// The MIME type of downloaded media: the `Content-Type` header before any `;`,
/// trimmed, when the header is given; else the type guessed from the file name.
pub open spec fn download_mime_spec(content_type: Option<Seq<char>>, filename: Seq<char>) -> Seq<char> {
    match content_type {
        Some(ct) => trim_spec(if has_char(ct, ';') { ct.take(first_index_of(ct, ';')) } else { ct }),
        None => mime_of_ext(extension_spec(filename)),
    }
}

/// The MIME type of downloaded media (see `download_mime_spec`).
pub fn download_mime(content_type: Option<&str>, filename: &str) -> (r: String)
    ensures
        r@ == download_mime_spec(
            match content_type {
                Some(c) => Some(c@),
                None => None,
            },
            filename@,
        ),
{
    match content_type {
        Some(ct) => {
            let c = chars_of(ct);
            let head = match find_char(c.as_slice(), ';') {
                Some(i) => {
                    proof {
                        lemma_first_index(c@, ';', i as int);
                    }
                    let h = slice_vec(c.as_slice(), 0, i);
                    assert(h@ =~= c@.take(i as int));
                    h
                },
                None => c,
            };
            let t = trim_chars(head.as_slice());
            string_of(t.as_slice())
        },
        None => String::from_str(guess_mime_type(filename)),
    }
}

} // verus!

verus! {

/// The MIME type of a media file agrees with the kind it is uploaded as: every
/// extension sent as an image has an `image/` type, every one sent as a voice an
/// `audio/` type and every one sent as a video a `video/` type; and the two
/// spellings of JPEG have the same type, `image/jpeg`.
pub proof fn law_mime_matches_upload_kind(ext: Seq<char>)
    ensures
        upload_type_of_ext(ext) == "image"@ ==> mime_of_ext(ext).take(6) == "image/"@,
        upload_type_of_ext(ext) == "voice"@ ==> mime_of_ext(ext).take(6) == "audio/"@,
        upload_type_of_ext(ext) == "video"@ ==> mime_of_ext(ext).take(6) == "video/"@,
        mime_of_ext(".jpg"@) == mime_of_ext(".jpeg"@),
        mime_of_ext(".jpeg"@) == "image/jpeg"@,
{
    reveal_strlit(".jpg");
    reveal_strlit(".jpeg");
    reveal_strlit(".png");
    reveal_strlit(".gif");
    reveal_strlit(".bmp");
    reveal_strlit(".webp");
    reveal_strlit(".amr");
    reveal_strlit(".mp3");
    reveal_strlit(".wav");
    reveal_strlit(".ogg");
    reveal_strlit(".m4a");
    reveal_strlit(".aac");
    reveal_strlit(".mp4");
    reveal_strlit(".mov");
    reveal_strlit(".avi");
    reveal_strlit(".mkv");
    reveal_strlit(".webm");
    reveal_strlit("image");
    reveal_strlit("voice");
    reveal_strlit("video");
    reveal_strlit("file");
    reveal_strlit("image/");
    reveal_strlit("audio/");
    reveal_strlit("video/");
    reveal_strlit("image/jpeg");
    reveal_strlit("image/png");
    reveal_strlit("image/gif");
    reveal_strlit("image/bmp");
    reveal_strlit("image/webp");
    reveal_strlit("audio/amr");
    reveal_strlit("audio/mpeg");
    reveal_strlit("audio/wav");
    reveal_strlit("audio/ogg");
    reveal_strlit("audio/mp4");
    reveal_strlit("audio/aac");
    reveal_strlit("video/mp4");
    reveal_strlit("video/quicktime");
    reveal_strlit("video/x-msvideo");
    reveal_strlit("video/x-matroska");
    reveal_strlit("video/webm");
    reveal_strlit("application/octet-stream");
    assert("image"@[0] == 'i' && "voice"@[0] == 'v' && "video"@[0] == 'v' && "voice"@[2] == 'i' && "video"@[2] == 'd');
    assert(".jpg"@[1] == 'j' && ".jpg"@[2] == 'p' && ".jpg"@[3] == 'g');
    assert(".jpeg"@[1] == 'j' && ".jpeg"@[2] == 'p' && ".jpeg"@[3] == 'e');
    assert(".png"@[1] == 'p' && ".png"@[2] == 'n' && ".png"@[3] == 'g');
    assert(".gif"@[1] == 'g' && ".gif"@[2] == 'i' && ".gif"@[3] == 'f');
    assert(".bmp"@[1] == 'b' && ".bmp"@[2] == 'm' && ".bmp"@[3] == 'p');
    assert(".webp"@[1] == 'w' && ".webp"@[2] == 'e' && ".webp"@[3] == 'b');
    assert(".amr"@[1] == 'a' && ".amr"@[2] == 'm' && ".amr"@[3] == 'r');
    assert(".mp3"@[1] == 'm' && ".mp3"@[2] == 'p' && ".mp3"@[3] == '3');
    assert(".wav"@[1] == 'w' && ".wav"@[2] == 'a' && ".wav"@[3] == 'v');
    assert(".ogg"@[1] == 'o' && ".ogg"@[2] == 'g' && ".ogg"@[3] == 'g');
    assert(".m4a"@[1] == 'm' && ".m4a"@[2] == '4' && ".m4a"@[3] == 'a');
    assert(".aac"@[1] == 'a' && ".aac"@[2] == 'a' && ".aac"@[3] == 'c');
    assert(".mp4"@[1] == 'm' && ".mp4"@[2] == 'p' && ".mp4"@[3] == '4');
    assert(".mov"@[1] == 'm' && ".mov"@[2] == 'o' && ".mov"@[3] == 'v');
    assert(".avi"@[1] == 'a' && ".avi"@[2] == 'v' && ".avi"@[3] == 'i');
    assert(".mkv"@[1] == 'm' && ".mkv"@[2] == 'k' && ".mkv"@[3] == 'v');
    assert(".webm"@[1] == 'w' && ".webm"@[2] == 'e' && ".webm"@[3] == 'b');
    if image_exts().contains(ext) {
        let i = choose|i: int| 0 <= i < image_exts().len() && image_exts()[i] == ext;
        if i == 0 {
            assert(ext == ".jpg"@);
            assert(mime_of_ext(ext) == "image/jpeg"@);
            assert("image/jpeg"@.take(6) =~= "image/"@);
        } else if i == 1 {
            assert(ext == ".jpeg"@);
            assert(mime_of_ext(ext) == "image/jpeg"@);
            assert("image/jpeg"@.take(6) =~= "image/"@);
        } else if i == 2 {
            assert(ext == ".png"@);
            assert(mime_of_ext(ext) == "image/png"@);
            assert("image/png"@.take(6) =~= "image/"@);
        } else if i == 3 {
            assert(ext == ".gif"@);
            assert(mime_of_ext(ext) == "image/gif"@);
            assert("image/gif"@.take(6) =~= "image/"@);
        } else if i == 4 {
            assert(ext == ".bmp"@);
            assert(mime_of_ext(ext) == "image/bmp"@);
            assert("image/bmp"@.take(6) =~= "image/"@);
        } else if i == 5 {
            assert(ext == ".webp"@);
            assert(mime_of_ext(ext) == "image/webp"@);
            assert("image/webp"@.take(6) =~= "image/"@);
        }
    } else if audio_exts().contains(ext) {
        let i = choose|i: int| 0 <= i < audio_exts().len() && audio_exts()[i] == ext;
        if i == 0 {
            assert(ext == ".amr"@);
            assert(mime_of_ext(ext) == "audio/amr"@);
            assert("audio/amr"@.take(6) =~= "audio/"@);
        } else if i == 1 {
            assert(ext == ".mp3"@);
            assert(mime_of_ext(ext) == "audio/mpeg"@);
            assert("audio/mpeg"@.take(6) =~= "audio/"@);
        } else if i == 2 {
            assert(ext == ".wav"@);
            assert(mime_of_ext(ext) == "audio/wav"@);
            assert("audio/wav"@.take(6) =~= "audio/"@);
        } else if i == 3 {
            assert(ext == ".ogg"@);
            assert(mime_of_ext(ext) == "audio/ogg"@);
            assert("audio/ogg"@.take(6) =~= "audio/"@);
        } else if i == 4 {
            assert(ext == ".m4a"@);
            assert(mime_of_ext(ext) == "audio/mp4"@);
            assert("audio/mp4"@.take(6) =~= "audio/"@);
        } else if i == 5 {
            assert(ext == ".aac"@);
            assert(mime_of_ext(ext) == "audio/aac"@);
            assert("audio/aac"@.take(6) =~= "audio/"@);
        }
    } else if video_exts().contains(ext) {
        let i = choose|i: int| 0 <= i < video_exts().len() && video_exts()[i] == ext;
        if i == 0 {
            assert(ext == ".mp4"@);
            assert(mime_of_ext(ext) == "video/mp4"@);
            assert("video/mp4"@.take(6) =~= "video/"@);
        } else if i == 1 {
            assert(ext == ".mov"@);
            assert(mime_of_ext(ext) == "video/quicktime"@);
            assert("video/quicktime"@.take(6) =~= "video/"@);
        } else if i == 2 {
            assert(ext == ".avi"@);
            assert(mime_of_ext(ext) == "video/x-msvideo"@);
            assert("video/x-msvideo"@.take(6) =~= "video/"@);
        } else if i == 3 {
            assert(ext == ".mkv"@);
            assert(mime_of_ext(ext) == "video/x-matroska"@);
            assert("video/x-matroska"@.take(6) =~= "video/"@);
        } else if i == 4 {
            assert(ext == ".webm"@);
            assert(mime_of_ext(ext) == "video/webm"@);
            assert("video/webm"@.take(6) =~= "video/"@);
        }
    }
}

} // verus!
