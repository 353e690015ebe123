//! The clipboard of this device: which clip is new, what an incoming clip
//! makes it hold, and when it may be cleared.

use vstd::prelude::*;
use vstd::string::*;
use vstd::utf8::*;

use crate::bytes::{copy_bytes, same_bytes};
use crate::clip_image;
use crate::clip_image::{png_to_rgba, DecodedImage, ImageProblem};
use crate::clip_tools;
use crate::clip_tools::{detect_backend, text_of_bytes, Backends};
use crate::crypto;
use crate::crypto::clip_hash;
use crate::text::same_text;

verus! {

// ---- clips ----

/// An item of the clipboard.
#[derive(Debug)]
pub struct Clip {
    pub mime: String,
    pub bytes: Vec<u8>,
    pub concealed: bool,
}

/// What an item of the clipboard holds.
pub struct ClipView {
    pub mime: Seq<char>,
    pub bytes: Seq<u8>,
    pub concealed: bool,
}

impl Clone for Clip {
    fn clone(&self) -> (r: Self)
        ensures
            r.view() == self.view(),
    {
        Clip {
            mime: self.mime.clone(),
            bytes: copy_bytes(self.bytes.as_slice()),
            concealed: self.concealed,
        }
    }
}

impl Clip {
    pub open spec fn view(&self) -> ClipView {
        ClipView { mime: self.mime@, bytes: self.bytes@, concealed: self.concealed }
    }

    /// The hash by which a clip is told from another.
    pub fn hash(&self) -> (r: String)
        ensures
            r@ == self.view().hash_text(),
    {
        clip_hash(self.mime.as_str(), self.bytes.as_slice())
    }
}

impl ClipView {
    /// The hash by which a clip is told from another.
    pub open spec fn hash_text(self) -> Seq<char> {
        crypto::clip_hash_text(self.mime, self.bytes)
    }

    /// Whether two clips have the same type and the same bytes.
    pub open spec fn same_content(self, other: ClipView) -> bool {
        self.mime == other.mime && self.bytes == other.bytes
    }
}

/// What an optional text holds.
pub open spec fn text_view(text: Option<String>) -> Option<Seq<char>> {
    match text {
        Some(t) => Some(t@),
        None => None,
    }
}

/// What an optional clip holds.
pub open spec fn clip_view(clip: Option<Clip>) -> Option<ClipView> {
    match clip {
        Some(c) => Some(c.view()),
        None => None,
    }
}

/// Whether two clips have the same type and the same bytes.
pub fn same_content(left: &Clip, right: &Clip) -> (r: bool)
    ensures
        r == left.view().same_content(right.view()),
{
    same_text(left.mime.as_str(), right.mime.as_str()) && same_bytes(
        left.bytes.as_slice(),
        right.bytes.as_slice(),
    )
}

/// Whether an optional text is this one.
fn is_text(text: &Option<String>, other: &str) -> (r: bool)
    ensures
        r == (text_view(*text) == Some(other@)),
{
    match text {
        Some(t) => same_text(t.as_str(), other),
        None => false,
    }
}

// ---- the clipboard ----

/// What is known of the clipboard between two looks at it.
#[derive(Debug)]
pub struct Clipboard {
    /// The hash of the clip that was seen last.
    last_hash: Option<String>,
    /// The hash of the clip that was put there last.
    ignore_hash: Option<String>,
    /// The picture file that was read last, and its clip.
    file_identity: Option<String>,
    file_clip: Option<Clip>,
    pub backend: String,
}

/// What is known of the clipboard.
pub struct ClipboardView {
    pub last_hash: Option<Seq<char>>,
    pub ignore_hash: Option<Seq<char>>,
    pub file_identity: Option<Seq<char>>,
    pub file_clip: Option<ClipView>,
    pub backend: Seq<char>,
}

/// What is to be put on the clipboard.
#[derive(Debug)]
pub enum WriteRequest {
    /// A PNG picture, and its pixels.
    Image(DecodedImage),
    Text(String),
}

impl ClipboardView {
    /// What is known after a look at the clipboard found a clip or none.
    pub open spec fn after_poll(self, found: Option<ClipView>) -> ClipboardView {
        match found {
            Some(clip) => if clip.bytes.len() == 0 {
                self
            } else {
                ClipboardView { last_hash: Some(clip.hash_text()), ..self }
            },
            None => self,
        }
    }

    /// Whether a clip that was found is new: not the one that was seen last,
    /// nor the one that was put there last.
    pub open spec fn is_news(self, clip: ClipView) -> bool {
        &&& clip.bytes.len() > 0
        &&& self.last_hash != Some(clip.hash_text())
        &&& self.ignore_hash != Some(clip.hash_text())
    }

    /// What is known after a clip was put on the clipboard.
    pub open spec fn after_set(self, clip: ClipView) -> ClipboardView {
        ClipboardView {
            last_hash: Some(clip.hash_text()),
            ignore_hash: Some(clip.hash_text()),
            file_identity: None,
            file_clip: None,
            ..self
        }
    }

    /// What is known without the picture file that was read last.
    pub open spec fn without_file(self) -> ClipboardView {
        ClipboardView { file_identity: None, file_clip: None, ..self }
    }

    /// What is known after a picture file was read.
    pub open spec fn with_file(self, identity: Seq<char>, clip: ClipView) -> ClipboardView {
        ClipboardView { file_identity: Some(identity), file_clip: Some(clip), ..self }
    }
}

impl Clipboard {
    pub closed spec fn view(&self) -> ClipboardView {
        ClipboardView {
            last_hash: text_view(self.last_hash),
            ignore_hash: text_view(self.ignore_hash),
            file_identity: text_view(self.file_identity),
            file_clip: clip_view(self.file_clip),
            backend: self.backend@,
        }
    }

    /// A clipboard of which nothing is known but how it is reached.
    pub fn open(b: &Backends) -> (r: Self)
        ensures
            r.view() == (ClipboardView {
                last_hash: None,
                ignore_hash: None,
                file_identity: None,
                file_clip: None,
                backend: clip_tools::backend_name(*b),
            }),
    {
        Clipboard {
            last_hash: None,
            ignore_hash: None,
            file_identity: None,
            file_clip: None,
            backend: detect_backend(b),
        }
    }

    /// Notes what a look at the clipboard found, and hands it on where it is
    /// new.
    pub fn poll(&mut self, found: Option<Clip>) -> (r: Option<Clip>)
        ensures
            final(self).view() == old(self).view().after_poll(clip_view(found)),
            r == (match found {
                Some(clip) => if old(self).view().is_news(clip.view()) {
                    Some(clip)
                } else {
                    None
                },
                None => None,
            }),
    {
        let clip = match found {
            Some(clip) => clip,
            None => {
                return None;
            },
        };
        if clip.bytes.len() == 0 {
            return None;
        }
        if self.note_found(clip.hash()) {
            Some(clip)
        } else {
            None
        }
    }

    /// Notes the hash of a clip that was found, and says whether the clip is
    /// new.
    pub fn note_found(&mut self, hash: String) -> (r: bool)
        ensures
            r == (old(self).view().last_hash != Some(hash@) && old(self).view().ignore_hash
                != Some(hash@)),
            final(self).view() == (ClipboardView { last_hash: Some(hash@), ..old(self).view() }),
    {
        let news = !is_text(&self.last_hash, hash.as_str()) && !is_text(
            &self.ignore_hash,
            hash.as_str(),
        );
        self.last_hash = Some(hash);
        news
    }

    /// Notes that a clip is put on the clipboard, and says what is to be
    /// written: the pixels of a picture, or a text.
    pub fn set(&mut self, clip: &Clip) -> (r: Result<WriteRequest, ImageProblem>)
        ensures
            final(self).view() == old(self).view().after_set(clip.view()),
            clip.mime@ == "image/png"@ ==> (match clip_image::pixels_of_png(clip.bytes@) {
                Ok(pixels) => r matches Ok(WriteRequest::Image(image)) && image.view() == pixels,
                Err(e) => r == Err::<WriteRequest, ImageProblem>(e),
            }),
            clip.mime@ != "image/png"@ ==> (r matches Ok(WriteRequest::Text(text)) && text@
                == clip_tools::lossy_text(clip.bytes@) && (valid_utf8(clip.bytes@) ==> text@
                == decode_utf8(clip.bytes@))),
    {
        self.note_set(clip.hash());
        if same_text(clip.mime.as_str(), "image/png") {
            match png_to_rgba(clip.bytes.as_slice()) {
                Ok(image) => Ok(WriteRequest::Image(image)),
                Err(e) => Err(e),
            }
        } else {
            Ok(WriteRequest::Text(text_of_bytes(clip.bytes.as_slice())))
        }
    }

    /// Notes the hash of a clip that is put on the clipboard.
    pub fn note_set(&mut self, hash: String)
        ensures
            final(self).view() == (ClipboardView {
                last_hash: Some(hash@),
                ignore_hash: Some(hash@),
                ..old(self).view().without_file()
            }),
    {
        self.clear_file_cache();
        self.last_hash = Some(hash.clone());
        self.ignore_hash = Some(hash);
    }

    /// Whether the clipboard may be cleared of a clip: it is still exactly
    /// what was found there.
    pub fn clear_if_matches(current: Option<&Clip>, expected: &Clip) -> (r: bool)
        ensures
            r == (match current {
                Some(clip) => clip.view().same_content(expected.view()),
                None => false,
            }),
    {
        match current {
            Some(clip) => same_content(clip, expected),
            None => false,
        }
    }

    /// What is known of a picture file, where it is the one that was read last.
    pub fn cached_file(&self, identity: &str) -> (r: Option<Option<Clip>>)
        ensures
            r is Some <==> self.view().file_identity == Some(identity@),
            r matches Some(clip) ==> clip_view(clip) == self.view().file_clip,
    {
        if !is_text(&self.file_identity, identity) {
            return None;
        }
        match &self.file_clip {
            Some(clip) => Some(Some(clip.clone())),
            None => Some(None),
        }
    }

    /// Notes the clip of a picture file.
    pub fn cache_file(&mut self, identity: String, clip: &Clip)
        ensures
            final(self).view() == old(self).view().with_file(identity@, clip.view()),
    {
        self.file_identity = Some(identity);
        self.file_clip = Some(clip.clone());
    }

    /// Forgets the picture file that was read last.
    pub fn clear_file_cache(&mut self)
        ensures
            final(self).view() == old(self).view().without_file(),
    {
        self.file_identity = None;
        self.file_clip = None;
    }
}

// ---- laws ----

/// A clip that came from a peer and was put on the clipboard is not news when
/// it is found there, so it is not sent back.
pub proof fn received_clip_is_not_news(before: ClipboardView, clip: ClipView, found: ClipView)
    requires
        found.same_content(clip),
    ensures
        !before.after_set(clip).is_news(found),
        !before.after_set(clip).after_poll(Some(found)).is_news(found),
{
}

/// What was found once is not news when it is found again.
pub proof fn clip_is_news_once(before: ClipboardView, clip: ClipView)
    ensures
        !before.after_poll(Some(clip)).is_news(clip),
{
}

/// A clip with another hash than those of the clips that were seen last and
/// put there last is news, unless it is empty.
pub proof fn other_clip_is_news(before: ClipboardView, seen: ClipView, other: ClipView)
    requires
        other.bytes.len() > 0,
        other.hash_text() != seen.hash_text(),
        before.ignore_hash != Some(other.hash_text()),
        seen.bytes.len() > 0,
    ensures
        before.after_poll(Some(seen)).is_news(other),
{
}

/// A clip that was put on the clipboard stays ignored when another was found
/// in between.
pub proof fn set_clip_stays_ignored(before: ClipboardView, set: ClipView, between: ClipView)
    ensures
        !before.after_set(set).after_poll(Some(between)).is_news(set),
{
}

/// A clip that is found again after another one is news again, unless it was put
/// there last.
pub proof fn clip_is_news_again_after_another(before: ClipboardView, a: ClipView, b: ClipView)
    requires
        a.bytes.len() > 0,
        b.bytes.len() > 0,
        a.hash_text() != b.hash_text(),
        before.ignore_hash != Some(a.hash_text()),
    ensures
        before.after_poll(Some(a)).after_poll(Some(b)).is_news(a),
{
}

/// The first clip that is found on a clipboard of which nothing is known is
/// news, and an empty one never is.
pub proof fn first_clip_is_news(before: ClipboardView, clip: ClipView)
    requires
        before.last_hash is None,
        before.ignore_hash is None,
    ensures
        before.is_news(clip) <==> clip.bytes.len() > 0,
{
}

/// A look changes nothing but the clip that was seen last, and nothing at all
/// where it finds no clip or an empty one.
pub proof fn looks_keep_the_rest(before: ClipboardView, clip: ClipView)
    ensures
        ({
            let after = before.after_poll(Some(clip));
            &&& after.ignore_hash == before.ignore_hash
            &&& after.file_identity == before.file_identity
            &&& after.file_clip == before.file_clip
            &&& after.backend == before.backend
            &&& clip.bytes.len() == 0 ==> after == before
        }),
        before.after_poll(None) == before,
{
}

/// Putting a clip on the clipboard forgets the picture file that was read last,
/// and keeps the way the clipboard is reached.
pub proof fn setting_forgets_the_file(before: ClipboardView, clip: ClipView)
    ensures
        before.after_set(clip).file_identity is None,
        before.after_set(clip).file_clip is None,
        before.after_set(clip).backend == before.backend,
        before.after_set(clip).last_hash == before.after_set(clip).ignore_hash,
{
}

/// Whether clips have the same content does not depend on concealment, and a
/// difference in the type or in a byte makes them different.
pub proof fn content_is_type_and_bytes(a: ClipView, b: ClipView, concealed: bool)
    ensures
        a.same_content(ClipView { concealed, ..a }),
        a.mime != b.mime || a.bytes != b.bytes ==> !a.same_content(b),
        a.same_content(b) ==> a.hash_text() == b.hash_text(),
        a.hash_text() == crypto::clip_hash_text(a.mime, a.bytes),
{
}

/// What an optional text or clip holds is told as it is.
pub proof fn optional_values_are_told(text: String, clip: Clip)
    ensures
        text_view(Some(text)) == Some(text@),
        text_view(None) is None,
        clip_view(Some(clip)) == Some(
            ClipView { mime: clip.mime@, bytes: clip.bytes@, concealed: clip.concealed },
        ),
        clip_view(None) is None,
{
}

} // verus!
