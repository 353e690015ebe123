//! How the clipboard is read: a sequence of questions to the outside, in which
//! each answer decides on the next question or on what was found.
//!
//! A picture file comes first, then pixels, then text. What is found is marked
//! as concealed where the clipboard is.

use vstd::prelude::*;
use vstd::string::*;
use vstd::utf8::*;

use crate::clip_files;
use crate::clip_files::{
    file_name_of, file_uri_to_path, is_image_path, parse_gnome_copied_files, parse_uri_list,
};
use crate::clip_image;
use crate::clip_image::{
    accept_pasted_image, bytes_to_png, image_file_to_png, rgba_to_png, DecodedImage,
};
use crate::clip_text;
use crate::clip_text::{decode_clipboard_bytes, normalize_clipboard_text};
use crate::clip_tools;
use crate::clip_tools::{linux_concealed, Backends, System};
use crate::clipboard::{Clip, ClipView, Clipboard, ClipboardView};
use crate::text;
use crate::text::{chars_of, has_part, push_decimal};

verus! {

// ---- questions ----

/// A question that a program or an interface of the system answers.
#[derive(Debug, Clone, Copy, PartialEq, Eq, Structural)]
pub enum Ask {
    WlTypes,
    XclipTypes,
    MacConcealed,
    WlGnomeFiles,
    WlUriList,
    XclipUriList,
    MacFileNames,
    MacFileUrl,
    WlImage(usize),
    XclipImage(usize),
    MacImage(usize),
    ArboardImage,
    WlText(usize),
    XclipText,
    PbText,
    ArboardText,
}

/// What is told of a file.
#[derive(Debug, Clone, Copy, PartialEq, Eq, Structural)]
pub struct FileFacts {
    pub is_file: bool,
    pub len: u64,
    /// When it was last changed, in nanoseconds since the start of 1970, or 0.
    pub modified: u128,
}

/// A question.
#[derive(Debug)]
pub enum Query {
    Tool(Ask),
    /// What kind of file is at this path?
    Facts(String),
    /// Which file does this path lead to?
    Resolve(String),
    /// What does the file at this path hold?
    Load(String),
}

/// An answer. One that does not fit the question counts as no answer.
#[derive(Debug)]
pub enum Reply {
    /// The output of a program, or the content of a file or of a clipboard
    /// type.
    Output(Option<Vec<u8>>),
    Text(Option<String>),
    Paths(Vec<String>),
    Picture(Option<DecodedImage>),
    Flag(bool),
    Facts(Option<FileFacts>),
}

/// What a question asks.
pub enum QueryView {
    Tool(Ask),
    Facts(Seq<char>),
    Resolve(Seq<char>),
    Load(Seq<char>),
}

/// What an answer says.
pub enum ReplyView {
    Output(Option<Seq<u8>>),
    Text(Option<Seq<char>>),
    Paths(Seq<Seq<char>>),
    Picture(Option<(nat, nat, Seq<u8>)>),
    Flag(bool),
    Facts(Option<FileFacts>),
}

impl Query {
    pub open spec fn view(&self) -> QueryView {
        match *self {
            Query::Tool(ask) => QueryView::Tool(ask),
            Query::Facts(path) => QueryView::Facts(path@),
            Query::Resolve(path) => QueryView::Resolve(path@),
            Query::Load(path) => QueryView::Load(path@),
        }
    }
}

impl Reply {
    pub open spec fn view(&self) -> ReplyView {
        match *self {
            Reply::Output(Some(bytes)) => ReplyView::Output(Some(bytes@)),
            Reply::Output(None) => ReplyView::Output(None),
            Reply::Text(Some(text)) => ReplyView::Text(Some(text@)),
            Reply::Text(None) => ReplyView::Text(None),
            Reply::Paths(paths) => ReplyView::Paths(text::strings(paths@)),
            Reply::Picture(Some(image)) => ReplyView::Picture(Some(image.view())),
            Reply::Picture(None) => ReplyView::Picture(None),
            Reply::Flag(flag) => ReplyView::Flag(flag),
            Reply::Facts(facts) => ReplyView::Facts(facts),
        }
    }
}

// ---- which questions, in which order ----

/// The question that tells whether the clipboard is concealed.
pub open spec fn conceal_ask(b: Backends) -> Option<Ask> {
    match b.system {
        System::MacOs => Some(Ask::MacConcealed),
        System::Linux => if b.can_wl_paste() {
            Some(Ask::WlTypes)
        } else if b.can_xclip() {
            Some(Ask::XclipTypes)
        } else {
            None
        },
        System::Other => None,
    }
}

/// Whether the clipboard counts as concealed where no question tells. On
/// Linux it does, so that nothing is sent that may be a password.
pub open spec fn concealed_unasked(b: Backends) -> bool {
    b.system == System::Linux
}

/// The questions for file paths.
pub open spec fn file_asks(b: Backends) -> Seq<Ask> {
    (if b.can_wl_paste() {
        seq![Ask::WlGnomeFiles, Ask::WlUriList]
    } else if b.can_xclip() {
        seq![Ask::XclipUriList]
    } else {
        seq![]
    }) + (if b.system == System::MacOs {
        seq![Ask::MacFileNames, Ask::MacFileUrl]
    } else {
        seq![]
    })
}

/// The questions for pixels.
pub open spec fn pixel_asks(b: Backends) -> Seq<Ask> {
    (if b.can_wl_paste() {
        seq![
            Ask::WlImage(0),
            Ask::WlImage(1),
            Ask::WlImage(2),
            Ask::WlImage(3),
            Ask::WlImage(4),
            Ask::WlImage(5),
            Ask::WlImage(6),
        ]
    } else if b.can_xclip() {
        seq![
            Ask::XclipImage(0),
            Ask::XclipImage(1),
            Ask::XclipImage(2),
            Ask::XclipImage(3),
            Ask::XclipImage(4),
            Ask::XclipImage(5),
            Ask::XclipImage(6),
        ]
    } else {
        seq![]
    }) + (if b.system == System::MacOs {
        seq![Ask::MacImage(0), Ask::MacImage(1), Ask::MacImage(2), Ask::MacImage(3)]
    } else {
        seq![]
    }) + (if b.arboard {
        seq![Ask::ArboardImage]
    } else {
        seq![]
    })
}

/// The questions for text.
pub open spec fn text_asks(b: Backends) -> Seq<Ask> {
    (if b.can_wl_paste() {
        seq![Ask::WlText(0), Ask::WlText(1), Ask::WlText(2), Ask::WlText(3), Ask::WlText(4)]
    } else if b.can_xclip() {
        seq![Ask::XclipText]
    } else {
        seq![]
    }) + (if b.system == System::MacOs {
        seq![Ask::PbText]
    } else {
        seq![]
    }) + (if b.arboard {
        seq![Ask::ArboardText]
    } else {
        seq![]
    })
}

fn conceal_question(b: &Backends) -> (r: Option<Ask>)
    ensures
        r == conceal_ask(*b),
{
    match b.system {
        System::MacOs => Some(Ask::MacConcealed),
        System::Linux => if b.wl_paste_usable() {
            Some(Ask::WlTypes)
        } else if b.xclip_usable() {
            Some(Ask::XclipTypes)
        } else {
            None
        },
        System::Other => None,
    }
}

fn file_questions(b: &Backends) -> (r: Vec<Ask>)
    ensures
        r@ == file_asks(*b),
{
    let mut asks: Vec<Ask> = Vec::new();
    if b.wl_paste_usable() {
        asks.push(Ask::WlGnomeFiles);
        asks.push(Ask::WlUriList);
    } else if b.xclip_usable() {
        asks.push(Ask::XclipUriList);
    }
    if b.system == System::MacOs {
        asks.push(Ask::MacFileNames);
        asks.push(Ask::MacFileUrl);
    }
    assert(asks@ =~= file_asks(*b));
    asks
}

fn pixel_questions(b: &Backends) -> (r: Vec<Ask>)
    ensures
        r@ == pixel_asks(*b),
{
    let mut asks: Vec<Ask> = Vec::new();
    if b.wl_paste_usable() {
        asks.push(Ask::WlImage(0));
        asks.push(Ask::WlImage(1));
        asks.push(Ask::WlImage(2));
        asks.push(Ask::WlImage(3));
        asks.push(Ask::WlImage(4));
        asks.push(Ask::WlImage(5));
        asks.push(Ask::WlImage(6));
    } else if b.xclip_usable() {
        asks.push(Ask::XclipImage(0));
        asks.push(Ask::XclipImage(1));
        asks.push(Ask::XclipImage(2));
        asks.push(Ask::XclipImage(3));
        asks.push(Ask::XclipImage(4));
        asks.push(Ask::XclipImage(5));
        asks.push(Ask::XclipImage(6));
    }
    if b.system == System::MacOs {
        asks.push(Ask::MacImage(0));
        asks.push(Ask::MacImage(1));
        asks.push(Ask::MacImage(2));
        asks.push(Ask::MacImage(3));
    }
    if b.arboard {
        asks.push(Ask::ArboardImage);
    }
    assert(asks@ =~= pixel_asks(*b));
    asks
}

fn text_questions(b: &Backends) -> (r: Vec<Ask>)
    ensures
        r@ == text_asks(*b),
{
    let mut asks: Vec<Ask> = Vec::new();
    if b.wl_paste_usable() {
        asks.push(Ask::WlText(0));
        asks.push(Ask::WlText(1));
        asks.push(Ask::WlText(2));
        asks.push(Ask::WlText(3));
        asks.push(Ask::WlText(4));
    } else if b.xclip_usable() {
        asks.push(Ask::XclipText);
    }
    if b.system == System::MacOs {
        asks.push(Ask::PbText);
    }
    if b.arboard {
        asks.push(Ask::ArboardText);
    }
    assert(asks@ =~= text_asks(*b));
    asks
}

/// The types of picture that are asked for on macOS, in this order.
pub open spec fn mac_image_types() -> Seq<Seq<char>> {
    seq!["public.png"@, "Apple PNG pasteboard type"@, "public.tiff"@, "public.jpeg"@]
}

/// The type of picture to ask for on macOS as the `index`th.
pub fn mac_image_type(index: usize) -> (r: Option<&'static str>)
    ensures
        r is Some <==> index < mac_image_types().len(),
        r matches Some(name) ==> name@ == mac_image_types()[index as int],
{
    if index == 0 {
        Some("public.png")
    } else if index == 1 {
        Some("Apple PNG pasteboard type")
    } else if index == 2 {
        Some("public.tiff")
    } else if index == 3 {
        Some("public.jpeg")
    } else {
        None
    }
}

/// The types of text that `wl-paste` is asked for, in this order.
pub open spec fn text_mimes() -> Seq<Seq<char>> {
    seq!["text/plain"@, "text/plain;charset=utf-8"@, "TEXT"@, "STRING"@, "UTF8_STRING"@]
}

/// The type of text to ask `wl-paste` for as the `index`th.
pub fn text_paste_mime(index: usize) -> (r: Option<&'static str>)
    ensures
        r is Some <==> index < text_mimes().len(),
        r matches Some(mime) ==> mime@ == text_mimes()[index as int],
{
    if index == 0 {
        Some("text/plain")
    } else if index == 1 {
        Some("text/plain;charset=utf-8")
    } else if index == 2 {
        Some("TEXT")
    } else if index == 3 {
        Some("STRING")
    } else if index == 4 {
        Some("UTF8_STRING")
    } else {
        None
    }
}

// ---- what an answer says ----

/// Whether an answer says that the clipboard is concealed.
pub open spec fn conceals(ask: Ask, reply: ReplyView) -> bool {
    match (ask, reply) {
        (Ask::MacConcealed, ReplyView::Flag(flag)) => flag,
        (Ask::WlTypes, ReplyView::Output(output)) => clip_tools::concealed_by(output),
        (Ask::XclipTypes, ReplyView::Output(output)) => clip_tools::concealed_by(output),
        _ => true,
    }
}

/// The paths that an answer gives; none where it gives nothing.
pub open spec fn paths_told(ask: Ask, reply: ReplyView) -> Seq<Seq<char>> {
    match (ask, reply) {
        (Ask::WlGnomeFiles, ReplyView::Output(Some(bytes))) => match clip_text::clipboard_text(
            bytes,
        ) {
            Some(t) => clip_files::gnome_paths(t),
            None => seq![],
        },
        (Ask::WlUriList, ReplyView::Output(Some(bytes))) => uri_paths_told(bytes),
        (Ask::XclipUriList, ReplyView::Output(Some(bytes))) => uri_paths_told(bytes),
        (Ask::MacFileNames, ReplyView::Paths(paths)) => paths,
        (Ask::MacFileUrl, ReplyView::Text(Some(url))) => match clip_files::uri_path(url) {
            Some(path) => seq![path],
            None => seq![],
        },
        _ => seq![],
    }
}

/// The paths in the bytes of a URI list.
pub open spec fn uri_paths_told(bytes: Seq<u8>) -> Seq<Seq<char>> {
    match clip_text::clipboard_text(bytes) {
        Some(t) => clip_files::uri_list_paths(t),
        None => seq![],
    }
}

/// The picture that an answer gives, as PNG.
pub open spec fn pixels_told(ask: Ask, reply: ReplyView) -> Option<Seq<u8>> {
    match (ask, reply) {
        (Ask::WlImage(k), ReplyView::Output(Some(bytes))) => if k < clip_image::image_mimes().len() {
            clip_image::pasted_png(clip_image::image_mimes()[k as int], bytes)
        } else {
            None
        },
        (Ask::XclipImage(k), ReplyView::Output(Some(bytes))) => if k
            < clip_image::image_mimes().len() {
            clip_image::pasted_png(clip_image::image_mimes()[k as int], bytes)
        } else {
            None
        },
        (Ask::MacImage(k), ReplyView::Output(Some(bytes))) => if k >= mac_image_types().len()
            || bytes.len() == 0 {
            None
        } else if text::contains(mac_image_types()[k as int], "png"@) {
            Some(bytes)
        } else {
            clip_image::png_of_bytes(bytes)
        },
        (Ask::ArboardImage, ReplyView::Picture(Some((width, height, pixels)))) =>
            match clip_image::png_of_pixels(width, height, pixels) {
            Ok(png) => Some(png),
            Err(_) => None,
        },
        _ => None,
    }
}

/// The text that an answer gives.
pub open spec fn text_told(ask: Ask, reply: ReplyView) -> Option<Seq<char>> {
    match (ask, reply) {
        (Ask::WlText(_), ReplyView::Output(Some(bytes))) => match clip_text::clipboard_text(bytes) {
            Some(t) => if clip_text::without_trailing_zeros(t).len() > 0 {
                Some(clip_text::without_trailing_zeros(t))
            } else {
                None
            },
            None => None,
        },
        (Ask::XclipText, ReplyView::Output(Some(bytes))) => match clip_text::clipboard_text(
            bytes,
        ) {
            Some(t) => Some(clip_text::without_trailing_zeros(t)),
            None => None,
        },
        (Ask::PbText, ReplyView::Output(Some(bytes))) => if valid_utf8(bytes) {
            Some(decode_utf8(bytes))
        } else {
            None
        },
        (Ask::ArboardText, ReplyView::Text(Some(t))) => if t.len() > 0 {
            Some(t)
        } else {
            None
        },
        _ => None,
    }
}

fn read_conceals(ask: Ask, reply: Reply) -> (r: bool)
    ensures
        r == conceals(ask, reply.view()),
{
    match (ask, reply) {
        (Ask::MacConcealed, Reply::Flag(flag)) => flag,
        (Ask::WlTypes, Reply::Output(output)) => linux_concealed(output),
        (Ask::XclipTypes, Reply::Output(output)) => linux_concealed(output),
        _ => true,
    }
}

fn read_uri_paths(bytes: &[u8]) -> (r: Vec<String>)
    ensures
        text::strings(r@) == uri_paths_told(bytes@),
{
    match decode_clipboard_bytes(bytes) {
        Some(t) => parse_uri_list(t.as_str()),
        None => {
            let none: Vec<String> = Vec::new();
            assert(text::strings(none@) =~= seq![]);
            none
        },
    }
}

fn read_paths(ask: Ask, reply: Reply) -> (r: Vec<String>)
    ensures
        text::strings(r@) == paths_told(ask, reply.view()),
{
    let none: Vec<String> = Vec::new();
    assert(text::strings(none@) =~= seq![]);
    match (ask, reply) {
        (Ask::WlGnomeFiles, Reply::Output(Some(bytes))) => match decode_clipboard_bytes(
            bytes.as_slice(),
        ) {
            Some(t) => parse_gnome_copied_files(t.as_str()),
            None => none,
        },
        (Ask::WlUriList, Reply::Output(Some(bytes))) => read_uri_paths(bytes.as_slice()),
        (Ask::XclipUriList, Reply::Output(Some(bytes))) => read_uri_paths(bytes.as_slice()),
        (Ask::MacFileNames, Reply::Paths(paths)) => paths,
        (Ask::MacFileUrl, Reply::Text(Some(url))) => match file_uri_to_path(url.as_str()) {
            Some(path) => {
                let mut paths: Vec<String> = Vec::new();
                paths.push(path);
                assert(text::strings(paths@) =~= seq![path@]);
                paths
            },
            None => none,
        },
        _ => none,
    }
}

fn read_pixels(ask: Ask, reply: Reply) -> (r: Option<Vec<u8>>)
    ensures
        r is Some <==> pixels_told(ask, reply.view()) is Some,
        r matches Some(png) ==> pixels_told(ask, reply.view()) == Some(png@),
{
    match (ask, reply) {
        (Ask::WlImage(k), Reply::Output(Some(bytes))) => match clip_image::image_paste_mime(k) {
            Some(mime) => accept_pasted_image(mime, Some(bytes)),
            None => None,
        },
        (Ask::XclipImage(k), Reply::Output(Some(bytes))) => match clip_image::image_paste_mime(k) {
            Some(mime) => accept_pasted_image(mime, Some(bytes)),
            None => None,
        },
        (Ask::MacImage(k), Reply::Output(Some(bytes))) => match mac_image_type(k) {
            Some(name) => {
                if bytes.len() == 0 {
                    return None;
                }
                let chars = chars_of(name);
                let part = chars_of("png");
                if has_part(chars.as_slice(), part.as_slice()) {
                    Some(bytes)
                } else {
                    bytes_to_png(bytes.as_slice())
                }
            },
            None => None,
        },
        (Ask::ArboardImage, Reply::Picture(Some(image))) => match rgba_to_png(
            image.width,
            image.height,
            image.rgba.as_slice(),
        ) {
            Ok(png) => Some(png),
            Err(_) => None,
        },
        _ => None,
    }
}

fn read_text(ask: Ask, reply: Reply) -> (r: Option<String>)
    ensures
        r is Some <==> text_told(ask, reply.view()) is Some,
        r matches Some(t) ==> text_told(ask, reply.view()) == Some(t@),
{
    match (ask, reply) {
        (Ask::WlText(_), Reply::Output(Some(bytes))) => match decode_clipboard_bytes(
            bytes.as_slice(),
        ) {
            Some(t) => {
                let normal = normalize_clipboard_text(t.as_str());
                if normal.as_str().is_empty() {
                    None
                } else {
                    Some(normal)
                }
            },
            None => None,
        },
        (Ask::XclipText, Reply::Output(Some(bytes))) => match decode_clipboard_bytes(
            bytes.as_slice(),
        ) {
            Some(t) => Some(normalize_clipboard_text(t.as_str())),
            None => None,
        },
        (Ask::PbText, Reply::Output(Some(bytes))) => match String::from_utf8(bytes) {
            Ok(t) => Some(t),
            Err(_) => None,
        },
        (Ask::ArboardText, Reply::Text(Some(t))) => if t.as_str().is_empty() {
            None
        } else {
            Some(t)
        },
        _ => None,
    }
}

// ---- picture files ----

/// The text by which a file is known: its path, its length and the time of its
/// last change.
pub open spec fn identity_text(path: Seq<char>, facts: FileFacts) -> Seq<char> {
    path + ":"@ + text::decimal(facts.len as nat) + ":"@ + text::decimal(facts.modified as nat)
}

/// The text by which a file is known, where it is a file.
pub fn file_identity(path: &str, facts: Option<FileFacts>) -> (r: Option<String>)
    ensures
        r is Some <==> (facts matches Some(f) && f.is_file),
        r matches Some(t) ==> t@ == identity_text(path@, facts->0),
{
    match facts {
        Some(f) => {
            if !f.is_file {
                return None;
            }
            let mut out = path.to_string();
            out.append(":");
            push_decimal(&mut out, f.len as u128);
            out.append(":");
            push_decimal(&mut out, f.modified);
            Some(out)
        },
        None => None,
    }
}

// ---- the reading ----

/// How far a reading has come.
#[derive(Debug)]
enum Stage {
    Conceal,
    Files(usize),
    /// The facts on this file are asked for.
    Facts(String),
    /// It is asked where this path leads, for the file with this identity.
    Resolve(String, String),
    /// The content of the file at this path is asked for, which has this
    /// identity.
    Load(String, String),
    Pixels(usize),
    Text(usize),
}

/// How far a reading has come.
pub enum StageView {
    Conceal,
    Files(int),
    Facts(Seq<char>),
    Resolve(Seq<char>, Seq<char>),
    Load(Seq<char>, Seq<char>),
    Pixels(int),
    Text(int),
}

/// A reading of the clipboard that waits for an answer.
#[derive(Debug)]
pub struct Reading {
    backends: Backends,
    concealed: bool,
    stage: Stage,
}

/// What is known of a reading.
pub struct ReadingView {
    pub backends: Backends,
    pub concealed: bool,
    pub stage: StageView,
}

/// A reading goes on with a question, or is done.
#[derive(Debug)]
pub enum ReadStep {
    Waiting(Reading),
    Done(Option<Clip>),
}

/// A reading goes on with a question, or is done.
pub enum StepView {
    Waiting(ReadingView),
    Done(Option<ClipView>),
}

impl ReadingView {
    /// Whether there is a question at this stage.
    pub open spec fn has_question(self) -> bool {
        match self.stage {
            StageView::Conceal => conceal_ask(self.backends) is Some,
            StageView::Files(k) => 0 <= k < file_asks(self.backends).len(),
            StageView::Pixels(k) => 0 <= k < pixel_asks(self.backends).len(),
            StageView::Text(k) => 0 <= k < text_asks(self.backends).len(),
            _ => true,
        }
    }

    /// The question that waits for an answer.
    pub open spec fn question(self) -> QueryView {
        match self.stage {
            StageView::Conceal => QueryView::Tool(conceal_ask(self.backends)->0),
            StageView::Files(k) => QueryView::Tool(file_asks(self.backends)[k]),
            StageView::Facts(path) => QueryView::Facts(path),
            StageView::Resolve(path, _) => QueryView::Resolve(path),
            StageView::Load(path, _) => QueryView::Load(path),
            StageView::Pixels(k) => QueryView::Tool(pixel_asks(self.backends)[k]),
            StageView::Text(k) => QueryView::Tool(text_asks(self.backends)[k]),
        }
    }

    /// The reading at another stage.
    pub open spec fn at(self, stage: StageView) -> StepView {
        StepView::Waiting(ReadingView { stage, ..self })
    }

    /// The reading from a question for text on.
    pub open spec fn at_text(self, k: int) -> StepView {
        if k < text_asks(self.backends).len() {
            self.at(StageView::Text(k))
        } else {
            StepView::Done(None)
        }
    }

    /// The reading from a question for pixels on.
    pub open spec fn at_pixels(self, k: int) -> StepView {
        if k < pixel_asks(self.backends).len() {
            self.at(StageView::Pixels(k))
        } else {
            self.at_text(0)
        }
    }

    /// The reading from a question for files on. Where no file is left to ask
    /// for, the file that was read last is forgotten.
    pub open spec fn at_files(self, cb: ClipboardView, k: int) -> (ClipboardView, StepView) {
        if k < file_asks(self.backends).len() {
            (cb, self.at(StageView::Files(k)))
        } else {
            self.past_files(cb)
        }
    }

    /// The reading after the questions for files.
    pub open spec fn past_files(self, cb: ClipboardView) -> (ClipboardView, StepView) {
        (cb.without_file(), self.at_pixels(0))
    }

    /// The picture that was found.
    pub open spec fn picture(self, png: Seq<u8>) -> ClipView {
        ClipView { mime: "image/png"@, bytes: png, concealed: self.concealed }
    }

    /// The clip of a picture file that was read before, marked as concealed
    /// where the clipboard now is.
    pub open spec fn marked(self, clip: ClipView) -> ClipView {
        ClipView { concealed: self.concealed, ..clip }
    }

    /// What a text that was found amounts to. An empty one is nothing.
    pub open spec fn text_clip(self, found: Seq<char>) -> Option<ClipView> {
        let normal = clip_text::without_trailing_zeros(found);
        if normal.len() == 0 {
            None
        } else {
            Some(
                ClipView {
                    mime: "text/plain"@,
                    bytes: encode_utf8(normal),
                    concealed: self.concealed,
                },
            )
        }
    }
}

/// How a reading starts.
pub open spec fn started(cb: ClipboardView, b: Backends) -> (ClipboardView, StepView) {
    let reading = ReadingView {
        backends: b,
        concealed: concealed_unasked(b),
        stage: StageView::Conceal,
    };
    if conceal_ask(b) is Some {
        (cb, StepView::Waiting(reading))
    } else {
        reading.at_files(cb, 0)
    }
}

/// How a reading goes on with an answer.
pub open spec fn resumed(cb: ClipboardView, reading: ReadingView, reply: ReplyView) -> (
    ClipboardView,
    StepView,
) {
    let b = reading.backends;
    match reading.stage {
        StageView::Conceal => {
            let known = ReadingView {
                concealed: conceals(conceal_ask(b)->0, reply),
                ..reading
            };
            known.at_files(cb, 0)
        },
        StageView::Files(k) => {
            let paths = paths_told(file_asks(b)[k], reply);
            if paths.len() == 0 {
                reading.at_files(cb, k + 1)
            } else if paths.len() == 1 {
                (cb, reading.at(StageView::Facts(paths[0])))
            } else {
                reading.past_files(cb)
            }
        },
        StageView::Facts(path) => match reply {
            ReplyView::Facts(Some(facts)) => {
                let identity = identity_text(path, facts);
                if !facts.is_file {
                    reading.past_files(cb)
                } else if cb.file_identity != Some(identity) {
                    (cb, reading.at(StageView::Resolve(path, identity)))
                } else {
                    match cb.file_clip {
                        Some(clip) => (cb, StepView::Done(Some(reading.marked(clip)))),
                        None => reading.past_files(cb),
                    }
                }
            },
            _ => reading.past_files(cb),
        },
        StageView::Resolve(path, identity) => {
            let file = match reply {
                ReplyView::Text(Some(resolved)) => resolved,
                _ => path,
            };
            if clip_files::image_path(file) {
                (cb, reading.at(StageView::Load(file, identity)))
            } else {
                reading.past_files(cb)
            }
        },
        StageView::Load(path, identity) => match file_picture(path, reply) {
            Some(png) => (
                cb.with_file(identity, reading.picture(png)),
                StepView::Done(Some(reading.picture(png))),
            ),
            None => reading.past_files(cb),
        },
        StageView::Pixels(k) => match pixels_told(pixel_asks(b)[k], reply) {
            Some(png) => if png.len() > 0 {
                (cb, StepView::Done(Some(reading.picture(png))))
            } else {
                (cb, reading.at_text(0))
            },
            None => (cb, reading.at_pixels(k + 1)),
        },
        StageView::Text(k) => match text_told(text_asks(b)[k], reply) {
            Some(found) => (cb, StepView::Done(reading.text_clip(found))),
            None => (cb, reading.at_text(k + 1)),
        },
    }
}

/// The picture that the content of a file gives, as PNG.
pub open spec fn file_picture(path: Seq<char>, reply: ReplyView) -> Option<Seq<u8>> {
    match (clip_files::file_name(path), reply) {
        (Some(name), ReplyView::Output(Some(data))) => clip_image::png_of_file(name, data),
        _ => None,
    }
}

fn read_file_picture(path: &str, reply: Reply) -> (r: Option<Vec<u8>>)
    ensures
        r is Some <==> file_picture(path@, reply.view()) is Some,
        r matches Some(png) ==> file_picture(path@, reply.view()) == Some(png@),
        r matches Some(png) ==> png@.len() > 0,
{
    match (file_name_of(path), reply) {
        (Some(name), Reply::Output(Some(data))) => image_file_to_png(
            name.as_str(),
            data.as_slice(),
        ),
        _ => None,
    }
}

/// Whether the clip of the picture file that was read last, if there is one, is
/// not empty.
pub open spec fn caches_bytes(cb: ClipboardView) -> bool {
    cb.file_clip matches Some(clip) ==> clip.bytes.len() > 0
}

/// Whether a clip that a reading ends with, if it does with one, is not empty.
pub open spec fn finds_bytes(step: StepView) -> bool {
    step matches StepView::Done(Some(clip)) ==> clip.bytes.len() > 0
}

/// A clip that is found otherwise than in the content of a file is not empty.
proof fn lemma_bytes_are_found(cb: ClipboardView, reading: ReadingView, reply: ReplyView)
    requires
        caches_bytes(cb),
        !(reading.stage is Load),
    ensures
        caches_bytes(resumed(cb, reading, reply).0),
        finds_bytes(resumed(cb, reading, reply).1),
{
    if let StageView::Text(k) = reading.stage {
        if let Some(found) = text_told(text_asks(reading.backends)[k], reply) {
            let normal = clip_text::without_trailing_zeros(found);
            if normal.len() > 0 {
                encode_utf8_first_scalar(normal);
            }
        }
    }
}

impl Stage {
    pub closed spec fn view(&self) -> StageView {
        match *self {
            Stage::Conceal => StageView::Conceal,
            Stage::Files(k) => StageView::Files(k as int),
            Stage::Facts(path) => StageView::Facts(path@),
            Stage::Resolve(path, identity) => StageView::Resolve(path@, identity@),
            Stage::Load(path, identity) => StageView::Load(path@, identity@),
            Stage::Pixels(k) => StageView::Pixels(k as int),
            Stage::Text(k) => StageView::Text(k as int),
        }
    }
}

impl ReadStep {
    pub open spec fn view(&self) -> StepView {
        match *self {
            ReadStep::Waiting(reading) => StepView::Waiting(reading.view()),
            ReadStep::Done(clip) => StepView::Done(crate::clipboard::clip_view(clip)),
        }
    }
}

impl Reading {
    pub closed spec fn view(&self) -> ReadingView {
        ReadingView {
            backends: self.backends,
            concealed: self.concealed,
            stage: self.stage.view(),
        }
    }

    #[verifier::type_invariant]
    spec fn waits(&self) -> bool {
        self.view().has_question()
    }

    /// The question that waits for an answer.
    pub fn query(&self) -> (r: Query)
        ensures
            self.view().has_question(),
            r.view() == self.view().question(),
    {
        proof {
            use_type_invariant(self);
        }
        match &self.stage {
            Stage::Conceal => match conceal_question(&self.backends) {
                Some(ask) => Query::Tool(ask),
                None => Query::Tool(Ask::MacConcealed),
            },
            Stage::Files(k) => Query::Tool(file_questions(&self.backends)[*k]),
            Stage::Facts(path) => Query::Facts(path.clone()),
            Stage::Resolve(path, _) => Query::Resolve(path.clone()),
            Stage::Load(path, _) => Query::Load(path.clone()),
            Stage::Pixels(k) => Query::Tool(pixel_questions(&self.backends)[*k]),
            Stage::Text(k) => Query::Tool(text_questions(&self.backends)[*k]),
        }
    }
}

/// The fixed part of a reading.
#[derive(Debug, Clone, Copy, PartialEq, Eq, Structural)]
struct Course {
    backends: Backends,
    concealed: bool,
}

impl Course {
    spec fn reading(self) -> ReadingView {
        ReadingView {
            backends: self.backends,
            concealed: self.concealed,
            stage: StageView::Conceal,
        }
    }

    fn at(self, stage: Stage) -> (r: ReadStep)
        requires
            (ReadingView { stage: stage.view(), ..self.reading() }).has_question(),
        ensures
            r.view() == self.reading().at(stage.view()),
    {
        ReadStep::Waiting(
            Reading { backends: self.backends, concealed: self.concealed, stage },
        )
    }

    fn at_text(self, k: usize) -> (r: ReadStep)
        ensures
            r.view() == self.reading().at_text(k as int),
    {
        if k < text_questions(&self.backends).len() {
            self.at(Stage::Text(k))
        } else {
            ReadStep::Done(None)
        }
    }

    fn at_pixels(self, k: usize) -> (r: ReadStep)
        ensures
            r.view() == self.reading().at_pixels(k as int),
    {
        if k < pixel_questions(&self.backends).len() {
            self.at(Stage::Pixels(k))
        } else {
            self.at_text(0)
        }
    }

    fn past_files(self, cb: &mut Clipboard) -> (r: ReadStep)
        ensures
            (final(cb).view(), r.view()) == self.reading().past_files(old(cb).view()),
    {
        cb.clear_file_cache();
        self.at_pixels(0)
    }

    fn at_files(self, cb: &mut Clipboard, k: usize) -> (r: ReadStep)
        ensures
            (final(cb).view(), r.view()) == self.reading().at_files(old(cb).view(), k as int),
    {
        if k < file_questions(&self.backends).len() {
            self.at(Stage::Files(k))
        } else {
            self.past_files(cb)
        }
    }

    fn picture(self, png: Vec<u8>) -> (r: Clip)
        ensures
            r.view() == self.reading().picture(png@),
    {
        Clip { mime: "image/png".to_string(), bytes: png, concealed: self.concealed }
    }

    fn marked(self, clip: Clip) -> (r: Clip)
        ensures
            r.view() == self.reading().marked(clip.view()),
    {
        Clip { mime: clip.mime, bytes: clip.bytes, concealed: self.concealed }
    }

    fn text_clip(self, found: String) -> (r: Option<Clip>)
        ensures
            crate::clipboard::clip_view(r) == self.reading().text_clip(found@),
    {
        let normal = normalize_clipboard_text(found.as_str());
        if normal.as_str().is_empty() {
            return None;
        }
        let bytes = crate::bytes::copy_bytes(normal.as_str().as_bytes());
        Some(Clip { mime: "text/plain".to_string(), bytes, concealed: self.concealed })
    }

    fn after_conceal(self, cb: &mut Clipboard, reply: Reply) -> (r: ReadStep)
        requires
            conceal_ask(self.backends) is Some,
        ensures
            (final(cb).view(), r.view()) == resumed(
                old(cb).view(),
                (ReadingView { stage: StageView::Conceal, ..self.reading() }),
                reply.view(),
            ),
    {
        match conceal_question(&self.backends) {
            Some(ask) => {
                let concealed = read_conceals(ask, reply);
                let known = Course { concealed, ..self };
                known.at_files(cb, 0)
            },
            None => self.at_files(cb, 0),
        }
    }

    fn after_files(self, cb: &mut Clipboard, k: usize, reply: Reply) -> (r: ReadStep)
        requires
            k < file_asks(self.backends).len(),
        ensures
            (final(cb).view(), r.view()) == resumed(
                old(cb).view(),
                (ReadingView { stage: StageView::Files(k as int), ..self.reading() }),
                reply.view(),
            ),
    {
        let ask = file_questions(&self.backends)[k];
        let paths = read_paths(ask, reply);
        assert(text::strings(paths@).len() == paths@.len());
        if paths.len() == 0 {
            self.at_files(cb, k + 1)
        } else if paths.len() == 1 {
            assert(text::strings(paths@)[0] == paths@[0]@);
            self.at(Stage::Facts(paths[0].clone()))
        } else {
            self.past_files(cb)
        }
    }

    fn after_facts(self, cb: &mut Clipboard, path: String, reply: Reply) -> (r: ReadStep)
        ensures
            (final(cb).view(), r.view()) == resumed(
                old(cb).view(),
                (ReadingView { stage: StageView::Facts(path@), ..self.reading() }),
                reply.view(),
            ),
    {
        let facts = match reply {
            Reply::Facts(facts) => facts,
            _ => None,
        };
        match file_identity(path.as_str(), facts) {
            Some(identity) => match cb.cached_file(identity.as_str()) {
                None => self.at(Stage::Resolve(path, identity)),
                Some(Some(clip)) => ReadStep::Done(Some(self.marked(clip))),
                Some(None) => self.past_files(cb),
            },
            None => self.past_files(cb),
        }
    }

    fn after_resolve(self, cb: &mut Clipboard, path: String, identity: String, reply: Reply) -> (r: ReadStep)
        ensures
            (final(cb).view(), r.view()) == resumed(
                old(cb).view(),
                (ReadingView { stage: StageView::Resolve(path@, identity@), ..self.reading() }),
                reply.view(),
            ),
    {
        let file = match reply {
            Reply::Text(Some(resolved)) => resolved,
            _ => path,
        };
        if is_image_path(file.as_str()) {
            self.at(Stage::Load(file, identity))
        } else {
            self.past_files(cb)
        }
    }

    fn after_load(self, cb: &mut Clipboard, path: String, identity: String, reply: Reply) -> (r: ReadStep)
        ensures
            (final(cb).view(), r.view()) == resumed(
                old(cb).view(),
                (ReadingView { stage: StageView::Load(path@, identity@), ..self.reading() }),
                reply.view(),
            ),
            caches_bytes(old(cb).view()) ==> caches_bytes(final(cb).view()),
            finds_bytes(r.view()),
    {
        match read_file_picture(path.as_str(), reply) {
            Some(png) => {
                let clip = self.picture(png);
                cb.cache_file(identity, &clip);
                ReadStep::Done(Some(clip))
            },
            None => self.past_files(cb),
        }
    }

    fn after_pixels(self, cb: &mut Clipboard, k: usize, reply: Reply) -> (r: ReadStep)
        requires
            k < pixel_asks(self.backends).len(),
        ensures
            (final(cb).view(), r.view()) == resumed(
                old(cb).view(),
                (ReadingView { stage: StageView::Pixels(k as int), ..self.reading() }),
                reply.view(),
            ),
    {
        let ask = pixel_questions(&self.backends)[k];
        match read_pixels(ask, reply) {
            Some(png) => if png.len() > 0 {
                ReadStep::Done(Some(self.picture(png)))
            } else {
                self.at_text(0)
            },
            None => self.at_pixels(k + 1),
        }
    }

    fn after_text(self, cb: &mut Clipboard, k: usize, reply: Reply) -> (r: ReadStep)
        requires
            k < text_asks(self.backends).len(),
        ensures
            (final(cb).view(), r.view()) == resumed(
                old(cb).view(),
                (ReadingView { stage: StageView::Text(k as int), ..self.reading() }),
                reply.view(),
            ),
    {
        let ask = text_questions(&self.backends)[k];
        match read_text(ask, reply) {
            Some(found) => ReadStep::Done(self.text_clip(found)),
            None => self.at_text(k + 1),
        }
    }
}

impl Clipboard {
    /// Starts to read the clipboard.
    pub fn read(&mut self, b: &Backends) -> (r: ReadStep)
        ensures
            (final(self).view(), r.view()) == started(old(self).view(), *b),
            caches_bytes(old(self).view()) ==> caches_bytes(final(self).view()),
            finds_bytes(r.view()),
    {
        let unasked = match b.system {
            System::Linux => true,
            _ => false,
        };
        let course = Course { backends: *b, concealed: unasked };
        match conceal_question(b) {
            Some(_) => course.at(Stage::Conceal),
            None => course.at_files(self, 0),
        }
    }

    /// Goes on with a reading. A clip that is found is not empty.
    pub fn resume(&mut self, reading: Reading, reply: Reply) -> (r: ReadStep)
        ensures
            (final(self).view(), r.view()) == resumed(
                old(self).view(),
                reading.view(),
                reply.view(),
            ),
            caches_bytes(old(self).view()) ==> caches_bytes(final(self).view()) && finds_bytes(
                r.view(),
            ),
    {
        proof {
            use_type_invariant(&reading);
            if caches_bytes(self.view()) && !(reading.view().stage is Load) {
                lemma_bytes_are_found(self.view(), reading.view(), reply.view());
            }
        }
        let course = Course { backends: reading.backends, concealed: reading.concealed };
        match reading.stage {
            Stage::Conceal => course.after_conceal(self, reply),
            Stage::Files(k) => course.after_files(self, k, reply),
            Stage::Facts(path) => course.after_facts(self, path, reply),
            Stage::Resolve(path, identity) => course.after_resolve(self, path, identity, reply),
            Stage::Load(path, identity) => course.after_load(self, path, identity, reply),
            Stage::Pixels(k) => course.after_pixels(self, k, reply),
            Stage::Text(k) => course.after_text(self, k, reply),
        }
    }
}

// ---- what a whole reading finds ----

/// How many questions a reading may still ask, at most.
pub open spec fn questions_left(step: StepView) -> nat {
    match step {
        StepView::Done(_) => 0,
        StepView::Waiting(reading) => {
            let texts = text_asks(reading.backends).len() as int;
            let pixels = texts + pixel_asks(reading.backends).len();
            let files = pixels + 3 + file_asks(reading.backends).len();
            (match reading.stage {
                StageView::Text(k) => texts - k,
                StageView::Pixels(k) => pixels - k,
                StageView::Load(_, _) => pixels + 1,
                StageView::Resolve(_, _) => pixels + 2,
                StageView::Facts(_) => pixels + 3,
                StageView::Files(k) => files - k,
                StageView::Conceal => files + 1,
            }) as nat
        },
    }
}

/// What a reading leads to where the outside answers by `world`: what is then
/// known of the clipboard, and what was found.
pub open spec fn run(
    world: spec_fn(QueryView) -> ReplyView,
    cb: ClipboardView,
    step: StepView,
) -> (ClipboardView, Option<ClipView>)
    decreases questions_left(step),
{
    match step {
        StepView::Done(clip) => (cb, clip),
        StepView::Waiting(reading) => {
            let next = resumed(cb, reading, world(reading.question()));
            if questions_left(next.1) < questions_left(step) {
                run(world, next.0, next.1)
            } else {
                (cb, None)
            }
        },
    }
}

/// The first paths that an answer gives, from the `k`th question on.
pub open spec fn first_paths(
    world: spec_fn(QueryView) -> ReplyView,
    asks: Seq<Ask>,
    k: int,
) -> Seq<Seq<char>>
    decreases asks.len() - k,
{
    if k < 0 || k >= asks.len() {
        seq![]
    } else if paths_told(asks[k], world(QueryView::Tool(asks[k]))).len() > 0 {
        paths_told(asks[k], world(QueryView::Tool(asks[k])))
    } else {
        first_paths(world, asks, k + 1)
    }
}

/// The first picture that an answer gives, from the `k`th question on.
pub open spec fn first_pixels(
    world: spec_fn(QueryView) -> ReplyView,
    asks: Seq<Ask>,
    k: int,
) -> Option<Seq<u8>>
    decreases asks.len() - k,
{
    if k < 0 || k >= asks.len() {
        None
    } else if pixels_told(asks[k], world(QueryView::Tool(asks[k]))) is Some {
        pixels_told(asks[k], world(QueryView::Tool(asks[k])))
    } else {
        first_pixels(world, asks, k + 1)
    }
}

/// The first text that an answer gives, from the `k`th question on.
pub open spec fn first_text(
    world: spec_fn(QueryView) -> ReplyView,
    asks: Seq<Ask>,
    k: int,
) -> Option<Seq<char>>
    decreases asks.len() - k,
{
    if k < 0 || k >= asks.len() {
        None
    } else if text_told(asks[k], world(QueryView::Tool(asks[k]))) is Some {
        text_told(asks[k], world(QueryView::Tool(asks[k])))
    } else {
        first_text(world, asks, k + 1)
    }
}

/// Whether the clipboard counts as concealed.
pub open spec fn is_concealed(world: spec_fn(QueryView) -> ReplyView, b: Backends) -> bool {
    match conceal_ask(b) {
        Some(ask) => conceals(ask, world(QueryView::Tool(ask))),
        None => concealed_unasked(b),
    }
}

/// The clip of the picture file at a path, if it is one.
pub open spec fn clip_of_file(
    world: spec_fn(QueryView) -> ReplyView,
    cb: ClipboardView,
    reading: ReadingView,
    path: Seq<char>,
) -> Option<ClipView> {
    match world(QueryView::Facts(path)) {
        ReplyView::Facts(Some(facts)) => if !facts.is_file {
            None
        } else if cb.file_identity == Some(identity_text(path, facts)) {
            match cb.file_clip {
                Some(clip) => Some(reading.marked(clip)),
                None => None,
            }
        } else {
            let file = match world(QueryView::Resolve(path)) {
                ReplyView::Text(Some(resolved)) => resolved,
                _ => path,
            };
            if !clip_files::image_path(file) {
                None
            } else {
                match file_picture(file, world(QueryView::Load(file))) {
                    Some(png) => Some(reading.picture(png)),
                    None => None,
                }
            }
        },
        _ => None,
    }
}

/// What is found besides files: pixels before text.
pub open spec fn clip_of_content(
    world: spec_fn(QueryView) -> ReplyView,
    reading: ReadingView,
) -> Option<ClipView> {
    match first_pixels(world, pixel_asks(reading.backends), 0) {
        Some(png) => if png.len() > 0 {
            Some(reading.picture(png))
        } else {
            clip_of_text(world, reading)
        },
        None => clip_of_text(world, reading),
    }
}

/// What text is found.
pub open spec fn clip_of_text(
    world: spec_fn(QueryView) -> ReplyView,
    reading: ReadingView,
) -> Option<ClipView> {
    match first_text(world, text_asks(reading.backends), 0) {
        Some(found) => reading.text_clip(found),
        None => None,
    }
}

/// What is on the clipboard: a single picture file, else pixels, else text.
pub open spec fn clipboard_content(
    world: spec_fn(QueryView) -> ReplyView,
    cb: ClipboardView,
    b: Backends,
) -> Option<ClipView> {
    let reading = ReadingView {
        backends: b,
        concealed: is_concealed(world, b),
        stage: StageView::Conceal,
    };
    let paths = first_paths(world, file_asks(b), 0);
    if paths.len() == 1 && clip_of_file(world, cb, reading, paths[0]) is Some {
        clip_of_file(world, cb, reading, paths[0])
    } else {
        clip_of_content(world, reading)
    }
}

proof fn lemma_run_text(
    world: spec_fn(QueryView) -> ReplyView,
    cb: ClipboardView,
    reading: ReadingView,
    k: int,
)
    requires
        0 <= k <= text_asks(reading.backends).len(),
    ensures
        run(world, cb, reading.at_text(k)) == (
            cb,
            match first_text(world, text_asks(reading.backends), k) {
                Some(found) => reading.text_clip(found),
                None => None,
            },
        ),
    decreases text_asks(reading.backends).len() - k,
{
    let asks = text_asks(reading.backends);
    if k < asks.len() {
        let here = ReadingView { stage: StageView::Text(k), ..reading };
        lemma_run_text(world, cb, reading, k + 1);
        assert(here.at_text(k + 1) == reading.at_text(k + 1));
        assert(resumed(cb, here, world(here.question())) == (match text_told(
            asks[k],
            world(QueryView::Tool(asks[k])),
        ) {
            Some(found) => (cb, StepView::Done(here.text_clip(found))),
            None => (cb, reading.at_text(k + 1)),
        }));
        let next = resumed(cb, here, world(here.question()));
        assert(run(world, cb, StepView::Waiting(here)) == run(world, next.0, next.1));
    }
}

proof fn lemma_run_pixels(
    world: spec_fn(QueryView) -> ReplyView,
    cb: ClipboardView,
    reading: ReadingView,
    k: int,
)
    requires
        0 <= k <= pixel_asks(reading.backends).len(),
    ensures
        run(world, cb, reading.at_pixels(k)) == (
            cb,
            match first_pixels(world, pixel_asks(reading.backends), k) {
                Some(png) => if png.len() > 0 {
                    Some(reading.picture(png))
                } else {
                    clip_of_text(world, reading)
                },
                None => clip_of_text(world, reading),
            },
        ),
    decreases pixel_asks(reading.backends).len() - k,
{
    let asks = pixel_asks(reading.backends);
    lemma_run_text(world, cb, reading, 0);
    if k < asks.len() {
        let here = ReadingView { stage: StageView::Pixels(k), ..reading };
        lemma_run_pixels(world, cb, reading, k + 1);
        assert(here.at_pixels(k + 1) == reading.at_pixels(k + 1));
        assert(here.at_text(0) == reading.at_text(0));
        assert(resumed(cb, here, world(here.question())) == (match pixels_told(
            asks[k],
            world(QueryView::Tool(asks[k])),
        ) {
            Some(png) => if png.len() > 0 {
                (cb, StepView::Done(Some(here.picture(png))))
            } else {
                (cb, reading.at_text(0))
            },
            None => (cb, reading.at_pixels(k + 1)),
        }));
        let next = resumed(cb, here, world(here.question()));
        assert(run(world, cb, StepView::Waiting(here)) == run(world, next.0, next.1));
    }
}

proof fn lemma_run_file(
    world: spec_fn(QueryView) -> ReplyView,
    cb: ClipboardView,
    reading: ReadingView,
    path: Seq<char>,
)
    ensures
        run(world, cb, reading.at(StageView::Facts(path))).1 == (if clip_of_file(
            world,
            cb,
            reading,
            path,
        ) is Some {
            clip_of_file(world, cb, reading, path)
        } else {
            clip_of_content(world, reading)
        }),
{
    let facts_at = ReadingView { stage: StageView::Facts(path), ..reading };
    lemma_run_pixels(world, cb.without_file(), reading, 0);
    assert(facts_at.at_pixels(0) == reading.at_pixels(0));
    if let ReplyView::Facts(Some(facts)) = world(QueryView::Facts(path)) {
        let identity = identity_text(path, facts);
        let resolve_at = ReadingView { stage: StageView::Resolve(path, identity), ..reading };
        assert(resolve_at.at_pixels(0) == reading.at_pixels(0));
        let file = match world(QueryView::Resolve(path)) {
            ReplyView::Text(Some(resolved)) => resolved,
            _ => path,
        };
        let load_at = ReadingView { stage: StageView::Load(file, identity), ..reading };
        assert(load_at.at_pixels(0) == reading.at_pixels(0));
        assert(facts_at.at(StageView::Resolve(path, identity)) == StepView::Waiting(resolve_at));
        assert(resolve_at.at(StageView::Load(file, identity)) == StepView::Waiting(load_at));
        if facts.is_file && cb.file_identity != Some(identity) {
            let loaded = resumed(cb, load_at, world(load_at.question()));
            assert(run(world, cb, StepView::Waiting(load_at)) == run(world, loaded.0, loaded.1));
            let resolved = resumed(cb, resolve_at, world(resolve_at.question()));
            assert(run(world, cb, StepView::Waiting(resolve_at)) == run(
                world,
                resolved.0,
                resolved.1,
            ));
        }
    }
    let told = resumed(cb, facts_at, world(facts_at.question()));
    assert(run(world, cb, StepView::Waiting(facts_at)) == run(world, told.0, told.1));
}

proof fn lemma_run_files(
    world: spec_fn(QueryView) -> ReplyView,
    cb: ClipboardView,
    reading: ReadingView,
    k: int,
)
    requires
        0 <= k <= file_asks(reading.backends).len(),
    ensures
        ({
            let paths = first_paths(world, file_asks(reading.backends), k);
            let start = reading.at_files(cb, k);
            run(world, start.0, start.1).1 == (if paths.len() == 1 && clip_of_file(
                world,
                cb,
                reading,
                paths[0],
            ) is Some {
                clip_of_file(world, cb, reading, paths[0])
            } else {
                clip_of_content(world, reading)
            })
        }),
    decreases file_asks(reading.backends).len() - k,
{
    let asks = file_asks(reading.backends);
    lemma_run_pixels(world, cb.without_file(), reading, 0);
    if k < asks.len() {
        let here = ReadingView { stage: StageView::Files(k), ..reading };
        let paths = paths_told(asks[k], world(QueryView::Tool(asks[k])));
        assert(here.at_pixels(0) == reading.at_pixels(0));
        assert(here.at_files(cb, k + 1) == reading.at_files(cb, k + 1));
        lemma_run_files(world, cb, reading, k + 1);
        if paths.len() == 1 {
            assert(here.at(StageView::Facts(paths[0])) == reading.at(StageView::Facts(paths[0])));
            lemma_run_file(world, cb, reading, paths[0]);
        }
        let next = resumed(cb, here, world(here.question()));
        assert(run(world, cb, StepView::Waiting(here)) == run(world, next.0, next.1));
    }
}

/// A reading ends, and it finds what is on the clipboard: a single picture
/// file where there is one, else the first pixels, else the first text.
pub proof fn reading_finds_the_content(
    world: spec_fn(QueryView) -> ReplyView,
    cb: ClipboardView,
    b: Backends,
)
    ensures
        run(world, started(cb, b).0, started(cb, b).1).1 == clipboard_content(world, cb, b),
{
    let reading = ReadingView {
        backends: b,
        concealed: is_concealed(world, b),
        stage: StageView::Conceal,
    };
    lemma_run_files(world, cb, reading, 0);
    if conceal_ask(b) is Some {
        let first = ReadingView {
            backends: b,
            concealed: concealed_unasked(b),
            stage: StageView::Conceal,
        };
        let next = resumed(cb, first, world(first.question()));
        assert(next == reading.at_files(cb, 0));
        assert(run(world, cb, StepView::Waiting(first)) == run(world, next.0, next.1));
    }
}

/// What is found on a concealed clipboard is marked as concealed, and nothing
/// else is.
pub proof fn concealment_is_marked(
    world: spec_fn(QueryView) -> ReplyView,
    cb: ClipboardView,
    b: Backends,
)
    ensures
        clipboard_content(world, cb, b) matches Some(clip) ==> clip.concealed == is_concealed(
            world,
            b,
        ),
{
}

/// On Linux, where no program lists the types on the clipboard, everything
/// counts as concealed.
pub proof fn unknown_types_conceal(world: spec_fn(QueryView) -> ReplyView, b: Backends)
    requires
        b.system == System::Linux,
        (!b.can_wl_paste() && !b.can_xclip()) || world(QueryView::Tool(conceal_ask(b)->0))
            == ReplyView::Output(None),
    ensures
        is_concealed(world, b),
{
}

/// Whether the clip of the picture file that was read last, if there is one, is
/// a PNG picture.
pub open spec fn caches_pictures(cb: ClipboardView) -> bool {
    cb.file_clip matches Some(clip) ==> clip.mime == "image/png"@
}

/// What is remembered of a picture file stays a PNG picture through a reading.
pub proof fn reading_caches_pictures(
    world: spec_fn(QueryView) -> ReplyView,
    cb: ClipboardView,
    step: StepView,
)
    requires
        caches_pictures(cb),
    ensures
        caches_pictures(run(world, cb, step).0),
    decreases questions_left(step),
{
    if let StepView::Waiting(reading) = step {
        let next = resumed(cb, reading, world(reading.question()));
        if questions_left(next.1) < questions_left(step) {
            reading_caches_pictures(world, next.0, next.1);
        }
    }
}

/// A text that is found is not empty and has no trailing zero character, and a
/// clip is a PNG picture or a text.
pub proof fn found_clips_are_pictures_or_texts(
    world: spec_fn(QueryView) -> ReplyView,
    cb: ClipboardView,
    b: Backends,
)
    requires
        caches_pictures(cb),
    ensures
        clipboard_content(world, cb, b) matches Some(clip) ==> clip.mime == "image/png"@ || (
        clip.mime == "text/plain"@ && (exists|found: Seq<char>|
            clip.bytes == encode_utf8(found) && found.len() > 0 && (#[trigger] found.last())
                != '\0')),
{
    if let Some(clip) = clipboard_content(world, cb, b) {
        if clip.mime != "image/png"@ {
            let found = first_text(world, text_asks(b), 0)->0;
            let normal = clip_text::without_trailing_zeros(found);
            clip_text::normalizing_is_idempotent(found);
            assert(normal.last() != '\0');
        }
    }
}

/// Whether an answer gives nothing.
pub open spec fn says_nothing(reply: ReplyView) -> bool {
    ||| reply == ReplyView::Output(None)
    ||| reply == ReplyView::Text(None)
    ||| reply == ReplyView::Paths(seq![])
    ||| reply == ReplyView::Picture(None)
}

/// Whether the first `n` of some questions are answered with nothing.
pub open spec fn silent(world: spec_fn(QueryView) -> ReplyView, asks: Seq<Ask>, n: int) -> bool {
    forall|i: int| 0 <= i < n ==> says_nothing(world(QueryView::Tool(#[trigger] asks[i])))
}

/// Whether an answer to a question for text hands over this text: as it is, in
/// UTF-8 that cannot be taken for UTF-16, or in UTF-16 with a mark.
pub open spec fn hands_over(ask: Ask, reply: ReplyView, t: Seq<char>) -> bool {
    match ask {
        Ask::ArboardText => reply == ReplyView::Text(Some(t)),
        Ask::PbText => reply == ReplyView::Output(Some(encode_utf8(t))),
        _ => {
            ||| reply == ReplyView::Output(Some(encode_utf8(t))) && !clip_text::utf16_like(
                encode_utf8(t),
            )
            ||| reply == ReplyView::Output(
                Some(seq![0xFFu8, 0xFEu8] + clip_text::unit_bytes(clip_text::units_of(t))),
            )
        },
    }
}

proof fn lemma_silent_text(world: spec_fn(QueryView) -> ReplyView, asks: Seq<Ask>, k: int, n: int)
    requires
        0 <= k <= n <= asks.len(),
        silent(world, asks, n),
    ensures
        first_text(world, asks, k) == first_text(world, asks, n),
    decreases n - k,
{
    if k < n {
        assert(says_nothing(world(QueryView::Tool(asks[k]))));
        lemma_silent_text(world, asks, k + 1, n);
    }
}

proof fn lemma_silent_pixels(world: spec_fn(QueryView) -> ReplyView, asks: Seq<Ask>, k: int, n: int)
    requires
        0 <= k <= n <= asks.len(),
        silent(world, asks, n),
    ensures
        first_pixels(world, asks, k) == first_pixels(world, asks, n),
    decreases n - k,
{
    if k < n {
        assert(says_nothing(world(QueryView::Tool(asks[k]))));
        lemma_silent_pixels(world, asks, k + 1, n);
    }
}

proof fn lemma_silent_paths(world: spec_fn(QueryView) -> ReplyView, asks: Seq<Ask>, k: int, n: int)
    requires
        0 <= k <= n <= asks.len(),
        silent(world, asks, n),
    ensures
        first_paths(world, asks, k) == first_paths(world, asks, n),
    decreases n - k,
{
    if k < n {
        assert(says_nothing(world(QueryView::Tool(asks[k]))));
        lemma_silent_paths(world, asks, k + 1, n);
    }
}

/// A text on the clipboard is found as it is, with all its lines, without the
/// zero characters at its end and with nothing else left out: where there are
/// neither files nor pixels, the first text that is handed over is the clip.
pub proof fn texts_are_found_whole(
    world: spec_fn(QueryView) -> ReplyView,
    cb: ClipboardView,
    b: Backends,
    k: int,
    t: Seq<char>,
    zeros: Seq<char>,
)
    requires
        0 <= k < text_asks(b).len(),
        silent(world, file_asks(b), file_asks(b).len() as int),
        silent(world, pixel_asks(b), pixel_asks(b).len() as int),
        silent(world, text_asks(b), k),
        t.len() > 0,
        t.last() != '\0',
        clip_text::all_zeros(zeros),
        hands_over(text_asks(b)[k], world(QueryView::Tool(text_asks(b)[k])), t + zeros),
    ensures
        run(world, started(cb, b).0, started(cb, b).1).1 == Some(
            ClipView {
                mime: "text/plain"@,
                bytes: encode_utf8(t),
                concealed: is_concealed(world, b),
            },
        ),
{
    let ask = text_asks(b)[k];
    let whole = t + zeros;
    let reply = world(QueryView::Tool(ask));
    reading_finds_the_content(world, cb, b);
    lemma_silent_paths(world, file_asks(b), 0, file_asks(b).len() as int);
    lemma_silent_pixels(world, pixel_asks(b), 0, pixel_asks(b).len() as int);
    lemma_silent_text(world, text_asks(b), 0, k);
    clip_text::only_trailing_zeros_are_dropped(t, zeros);
    clip_text::only_trailing_zeros_are_dropped(t, seq![]);
    assert(t + Seq::<char>::empty() =~= t);
    encode_utf8_valid_utf8(whole);
    encode_utf8_decode_utf8(whole);
    clip_text::utf16_clipboard_text_is_read_back(whole);
    if !clip_text::utf16_like(encode_utf8(whole)) {
        clip_text::utf8_text_is_read_back(whole);
    }
    assert(is_text_ask(ask)) by {
        lemma_text_asks(b, k);
    }
    assert(text_told(ask, reply) == Some(whole) || text_told(ask, reply) == Some(t));
}

spec fn is_text_ask(ask: Ask) -> bool {
    ask is WlText || ask is XclipText || ask is PbText || ask is ArboardText
}

proof fn lemma_text_asks(b: Backends, k: int)
    requires
        0 <= k < text_asks(b).len(),
    ensures
        is_text_ask(text_asks(b)[k]),
{
}

/// Where the first text that an answer gives is not empty without the zero
/// characters at its end, a text that is found has exactly these characters.
/// Where it is empty without them, no text is found.
pub proof fn first_text_is_kept(
    world: spec_fn(QueryView) -> ReplyView,
    cb: ClipboardView,
    b: Backends,
    t: Seq<char>,
    zeros: Seq<char>,
)
    requires
        caches_pictures(cb),
        t.len() == 0 || t.last() != '\0',
        clip_text::all_zeros(zeros),
        first_text(world, text_asks(b), 0) == Some(t + zeros),
    ensures
        run(world, started(cb, b).0, started(cb, b).1).1 matches Some(clip) ==> clip.mime
            == "text/plain"@ ==> t.len() > 0 && clip.bytes == encode_utf8(t),
        t.len() > 0 ==> run(world, started(cb, b).0, started(cb, b).1).1 is Some,
{
    reading_finds_the_content(world, cb, b);
    clip_text::only_trailing_zeros_are_dropped(t, zeros);
    reveal_strlit("image/png");
    reveal_strlit("text/plain");
    assert("image/png"@[0] == 'i' && "text/plain"@[0] == 't');
}

/// Pixels come before text: the first picture that is handed over is the clip,
/// whatever text there is. A PNG picture that can be shown is taken byte for
/// byte.
pub proof fn pixels_come_before_text(
    world: spec_fn(QueryView) -> ReplyView,
    cb: ClipboardView,
    b: Backends,
    k: int,
    output: Seq<u8>,
)
    requires
        0 <= k < pixel_asks(b).len(),
        silent(world, file_asks(b), file_asks(b).len() as int),
        silent(world, pixel_asks(b), k),
        world(QueryView::Tool(pixel_asks(b)[k])) == ReplyView::Output(Some(output)),
        output.len() > 0,
    ensures
        (pixel_asks(b)[k] == Ask::WlImage(0) || pixel_asks(b)[k] == Ask::XclipImage(0))
            && clip_image::pixels_of_png(output) is Ok ==> run(
            world,
            started(cb, b).0,
            started(cb, b).1,
        ).1 == Some(
            ClipView { mime: "image/png"@, bytes: output, concealed: is_concealed(world, b) },
        ),
        (pixel_asks(b)[k] is WlImage || pixel_asks(b)[k] is XclipImage) && !(pixel_asks(b)[k]
            == Ask::WlImage(0) || pixel_asks(b)[k] == Ask::XclipImage(0)) ==> (
        clip_image::png_of_bytes(output) matches Some(png) ==> png.len() > 0 ==> run(
            world,
            started(cb, b).0,
            started(cb, b).1,
        ).1 == Some(
            ClipView { mime: "image/png"@, bytes: png, concealed: is_concealed(world, b) },
        )),
{
    reading_finds_the_content(world, cb, b);
    lemma_silent_paths(world, file_asks(b), 0, file_asks(b).len() as int);
    lemma_silent_pixels(world, pixel_asks(b), 0, k);
    lemma_first_pixels(world, b, k, output);
}

proof fn lemma_first_pixels(
    world: spec_fn(QueryView) -> ReplyView,
    b: Backends,
    k: int,
    output: Seq<u8>,
)
    requires
        0 <= k < pixel_asks(b).len(),
        world(QueryView::Tool(pixel_asks(b)[k])) == ReplyView::Output(Some(output)),
        output.len() > 0,
    ensures
        (pixel_asks(b)[k] == Ask::WlImage(0) || pixel_asks(b)[k] == Ask::XclipImage(0))
            && clip_image::pixels_of_png(output) is Ok ==> first_pixels(world, pixel_asks(b), k)
            == Some(output),
        (pixel_asks(b)[k] is WlImage || pixel_asks(b)[k] is XclipImage) && !(pixel_asks(b)[k]
            == Ask::WlImage(0) || pixel_asks(b)[k] == Ask::XclipImage(0)) ==> (
        clip_image::png_of_bytes(output) is Some ==> first_pixels(world, pixel_asks(b), k)
            == clip_image::png_of_bytes(output)),
{
    let ask = pixel_asks(b)[k];
    lemma_picture_types(b, k);
    lemma_told_picture(ask, output);
}

proof fn lemma_picture_types(b: Backends, k: int)
    requires
        0 <= k < pixel_asks(b).len(),
    ensures
        pixel_asks(b)[k] matches Ask::WlImage(j) ==> j < 7,
        pixel_asks(b)[k] matches Ask::XclipImage(j) ==> j < 7,
{
}

proof fn lemma_told_picture(ask: Ask, output: Seq<u8>)
    requires
        output.len() > 0,
        ask matches Ask::WlImage(j) ==> j < 7,
        ask matches Ask::XclipImage(j) ==> j < 7,
    ensures
        (ask == Ask::WlImage(0) || ask == Ask::XclipImage(0)) && clip_image::pixels_of_png(output)
            is Ok ==> pixels_told(ask, ReplyView::Output(Some(output))) == Some(output),
        (ask is WlImage || ask is XclipImage) && !(ask == Ask::WlImage(0) || ask
            == Ask::XclipImage(0)) ==> pixels_told(ask, ReplyView::Output(Some(output)))
            == clip_image::png_of_bytes(output),
{
    lemma_image_mimes();
}

proof fn lemma_image_mimes()
    ensures
        clip_image::image_mimes().len() == 7,
        clip_image::image_mimes()[0] == "image/png"@,
        forall|j: int|
            0 < j < 7 ==> #[trigger] clip_image::image_mimes()[j] != "image/png"@,
{
    reveal_strlit("image/png");
    reveal_strlit("image/jpeg");
    reveal_strlit("image/jpg");
    reveal_strlit("image/gif");
    reveal_strlit("image/webp");
    reveal_strlit("image/bmp");
    reveal_strlit("image/tiff");
    assert("image/png"@[6] == 'p');
    assert("image/jpeg"@[6] == 'j' && "image/jpg"@[6] == 'j' && "image/gif"@[6] == 'g'
        && "image/webp"@[6] == 'w' && "image/bmp"@[6] == 'b' && "image/tiff"@[6] == 't');
}

/// A single picture file on the clipboard comes before everything else: its
/// content, as PNG, is the clip. It is read at the place that its path leads to,
/// and at the path itself where that is not known.
pub proof fn single_picture_files_are_read(
    world: spec_fn(QueryView) -> ReplyView,
    cb: ClipboardView,
    b: Backends,
    k: int,
    path: Seq<char>,
    facts: FileFacts,
    file: Seq<char>,
    data: Seq<u8>,
)
    requires
        0 <= k < file_asks(b).len(),
        silent(world, file_asks(b), k),
        paths_told(file_asks(b)[k], world(QueryView::Tool(file_asks(b)[k]))) == seq![path],
        world(QueryView::Facts(path)) == ReplyView::Facts(Some(facts)),
        facts.is_file,
        cb.file_identity != Some(identity_text(path, facts)),
        world(QueryView::Resolve(path)) == ReplyView::Text(Some(file)) || (world(
            QueryView::Resolve(path),
        ) == ReplyView::Text(None) && file == path),
        clip_files::image_path(file),
        world(QueryView::Load(file)) == ReplyView::Output(Some(data)),
    ensures
        clip_image::png_of_file(clip_files::file_name(file)->0, data) matches Some(png) ==> run(
            world,
            started(cb, b).0,
            started(cb, b).1,
        ).1 == Some(
            ClipView { mime: "image/png"@, bytes: png, concealed: is_concealed(world, b) },
        ),
{
    reading_finds_the_content(world, cb, b);
    lemma_silent_paths(world, file_asks(b), 0, k);
    assert(first_paths(world, file_asks(b), k) == seq![path]);
}

/// A picture file that has not changed since it was read is not read again: its
/// clip is what it was, marked as concealed where the clipboard now is.
pub proof fn unchanged_picture_files_are_remembered(
    world: spec_fn(QueryView) -> ReplyView,
    cb: ClipboardView,
    b: Backends,
    k: int,
    path: Seq<char>,
    facts: FileFacts,
    clip: ClipView,
)
    requires
        0 <= k < file_asks(b).len(),
        silent(world, file_asks(b), k),
        paths_told(file_asks(b)[k], world(QueryView::Tool(file_asks(b)[k]))) == seq![path],
        world(QueryView::Facts(path)) == ReplyView::Facts(Some(facts)),
        facts.is_file,
        cb.file_identity == Some(identity_text(path, facts)),
        cb.file_clip == Some(clip),
    ensures
        run(world, started(cb, b).0, started(cb, b).1).1 == Some(
            ClipView { mime: clip.mime, bytes: clip.bytes, concealed: is_concealed(world, b) },
        ),
{
    reading_finds_the_content(world, cb, b);
    lemma_silent_paths(world, file_asks(b), 0, k);
    assert(first_paths(world, file_asks(b), k) == seq![path]);
}

/// Where a file has grown, shrunk or been changed since, it counts as another.
pub proof fn changed_files_are_told_apart(path: Seq<char>, f: FileFacts, g: FileFacts)
    requires
        f.len != g.len || f.modified != g.modified,
    ensures
        identity_text(path, f) != identity_text(path, g),
{
    reveal_strlit(":");
    let colon = seq![':'];
    assert(":"@ =~= colon);
    if identity_text(path, f) == identity_text(path, g) {
        let n = path.len() as int + 1;
        let a = text::decimal(f.len as nat);
        let b = text::decimal(f.modified as nat);
        let c = text::decimal(g.len as nat);
        let d = text::decimal(g.modified as nat);
        assert(identity_text(path, f).skip(n) =~= a + colon + b);
        assert(identity_text(path, g).skip(n) =~= c + colon + d);
        lemma_decimals_lack_colons(f.len as nat);
        lemma_decimals_lack_colons(f.modified as nat);
        lemma_decimals_lack_colons(g.len as nat);
        lemma_decimals_lack_colons(g.modified as nat);
        text::fields_end_at_separators(a, ':', b);
        text::fields_end_at_separators(c, ':', d);
        text::fields_end_at_separators(b, ':', b);
        text::fields_end_at_separators(d, ':', d);
        let all = text::split(a + colon + b, ':');
        assert(all =~= seq![a, b]);
        assert(all =~= seq![c, d]);
        assert(all[0] == a && all[0] == c);
        assert(all[1] == b && all[1] == d);
    }
}

/// Files at different paths count as different, also where they are alike
/// otherwise.
pub proof fn files_at_other_paths_are_told_apart(a: Seq<char>, b: Seq<char>, facts: FileFacts)
    requires
        a != b,
    ensures
        identity_text(a, facts) != identity_text(b, facts),
{
    let tail = ":"@ + text::decimal(facts.len as nat) + ":"@ + text::decimal(
        facts.modified as nat,
    );
    if identity_text(a, facts) == identity_text(b, facts) {
        let n = identity_text(a, facts).len() - tail.len();
        assert(identity_text(a, facts).take(n) =~= a);
        assert(identity_text(b, facts).take(n) =~= b);
    }
}

proof fn lemma_decimals_lack_colons(n: nat)
    ensures
        text::lacks(text::decimal(n), ':'),
        text::value(text::decimal(n)) == n,
{
    text::decimal_is_read_back(n, n);
    let d = text::decimal(n);
    assert forall|i: int| 0 <= i < d.len() implies #[trigger] d[i] != ':' by {
        assert(text::is_digit(d[i]));
    }
}

/// Where several files are on the clipboard, none is read: what is found depends
/// on the answers of the clipboard alone, not on any file.
pub proof fn several_files_are_not_read(
    world: spec_fn(QueryView) -> ReplyView,
    other: spec_fn(QueryView) -> ReplyView,
    cb: ClipboardView,
    b: Backends,
    k: int,
)
    requires
        forall|ask: Ask| #[trigger] world(QueryView::Tool(ask)) == other(QueryView::Tool(ask)),
        0 <= k < file_asks(b).len(),
        silent(world, file_asks(b), k),
        paths_told(file_asks(b)[k], world(QueryView::Tool(file_asks(b)[k]))).len() > 1,
    ensures
        run(world, started(cb, b).0, started(cb, b).1).1 == run(
            other,
            started(cb, b).0,
            started(cb, b).1,
        ).1,
{
    reading_finds_the_content(world, cb, b);
    reading_finds_the_content(other, cb, b);
    assert(silent(other, file_asks(b), k)) by {
        assert forall|i: int| 0 <= i < k implies says_nothing(
            other(QueryView::Tool(#[trigger] file_asks(b)[i])),
        ) by {
            assert(says_nothing(world(QueryView::Tool(file_asks(b)[i]))));
        }
    }
    lemma_silent_paths(world, file_asks(b), 0, k);
    lemma_silent_paths(other, file_asks(b), 0, k);
    lemma_same_answers(world, other, pixel_asks(b), 0);
    lemma_same_answers(world, other, text_asks(b), 0);
}

proof fn lemma_same_answers(
    world: spec_fn(QueryView) -> ReplyView,
    other: spec_fn(QueryView) -> ReplyView,
    asks: Seq<Ask>,
    k: int,
)
    requires
        forall|ask: Ask| #[trigger] world(QueryView::Tool(ask)) == other(QueryView::Tool(ask)),
        0 <= k <= asks.len(),
    ensures
        first_pixels(world, asks, k) == first_pixels(other, asks, k),
        first_text(world, asks, k) == first_text(other, asks, k),
    decreases asks.len() - k,
{
    if k < asks.len() {
        lemma_same_answers(world, other, asks, k + 1);
    }
}

/// Each way to reach the clipboard is asked where it is there: `wl-paste` under
/// Wayland, `xclip` only without it, the macOS pasteboard on macOS, and last the
/// clipboard of this process.
pub proof fn every_way_is_asked(b: Backends)
    ensures
        b.wayland && b.wl_paste ==> text_asks(b).contains(Ask::WlText(0)) && pixel_asks(b).contains(
            Ask::WlImage(0),
        ) && file_asks(b).contains(Ask::WlGnomeFiles) && file_asks(b).contains(Ask::WlUriList),
        !b.wayland && b.xclip ==> text_asks(b).contains(Ask::XclipText) && pixel_asks(b).contains(
            Ask::XclipImage(0),
        ) && file_asks(b).contains(Ask::XclipUriList),
        b.system == System::MacOs ==> text_asks(b).contains(Ask::PbText) && pixel_asks(b).contains(
            Ask::MacImage(0),
        ) && file_asks(b).contains(Ask::MacFileNames) && file_asks(b).contains(Ask::MacFileUrl),
        b.arboard ==> text_asks(b).contains(Ask::ArboardText) && pixel_asks(b).contains(
            Ask::ArboardImage,
        ),
        b.wayland ==> !text_asks(b).contains(Ask::XclipText) && !file_asks(b).contains(
            Ask::XclipUriList,
        ),
        b.wayland && b.wl_paste ==> file_asks(b)[0] == Ask::WlGnomeFiles && file_asks(b)[1]
            == Ask::WlUriList,
        b.system == System::MacOs ==> file_asks(b)[file_asks(b).len() - 2] == Ask::MacFileNames
            && file_asks(b).last() == Ask::MacFileUrl,
        b.arboard ==> text_asks(b).last() == Ask::ArboardText && pixel_asks(b).last()
            == Ask::ArboardImage,
{
    let texts = text_asks(b);
    let pixels = pixel_asks(b);
    let files = file_asks(b);
    if b.wayland && b.wl_paste {
        assert(texts[0] == Ask::WlText(0) && pixels[0] == Ask::WlImage(0));
        assert(files[0] == Ask::WlGnomeFiles && files[1] == Ask::WlUriList);
    }
    if !b.wayland && b.xclip {
        assert(texts[0] == Ask::XclipText && pixels[0] == Ask::XclipImage(0));
        assert(files[0] == Ask::XclipUriList);
    }
    if b.system == System::MacOs {
        let before: int = if b.arboard {
            1
        } else {
            0
        };
        assert(texts[texts.len() - 1 - before] == Ask::PbText);
        assert(pixels[pixels.len() - 4 - before] == Ask::MacImage(0));
        assert(files[files.len() - 2] == Ask::MacFileNames);
        assert(files.last() == Ask::MacFileUrl);
    }
    if b.arboard {
        assert(texts.last() == Ask::ArboardText && pixels.last() == Ask::ArboardImage);
    }
}

/// Every type of picture and of text is asked for, in its order.
pub proof fn every_type_is_asked_for(b: Backends, j: int)
    ensures
        b.can_wl_paste() && 0 <= j < 7 ==> j < pixel_asks(b).len() && pixel_asks(b)[j]
            == Ask::WlImage(j as usize),
        b.can_xclip() && 0 <= j < 7 ==> j < pixel_asks(b).len() && pixel_asks(b)[j]
            == Ask::XclipImage(j as usize),
        b.can_wl_paste() && 0 <= j < 5 ==> j < text_asks(b).len() && text_asks(b)[j] == Ask::WlText(
            j as usize,
        ),
        b.system == System::MacOs && 0 <= j < 4 ==> pixel_asks(b).contains(
            Ask::MacImage(j as usize),
        ),
{
    if b.system == System::MacOs && 0 <= j < 4 {
        let pixels = pixel_asks(b);
        let after: int = if b.arboard {
            1
        } else {
            0
        };
        assert(pixels[pixels.len() - 4 - after + j] == Ask::MacImage(j as usize));
    }
}

/// On Linux the types that a program lists tell whether the clipboard is
/// concealed, on macOS the pasteboard does, and elsewhere it never is.
pub proof fn types_tell_concealment(
    world: spec_fn(QueryView) -> ReplyView,
    b: Backends,
    bytes: Seq<u8>,
    flag: bool,
)
    ensures
        b.system == System::Linux && b.wayland && b.wl_paste && world(
            QueryView::Tool(Ask::WlTypes),
        ) == ReplyView::Output(Some(bytes)) ==> is_concealed(world, b)
            == clip_tools::lists_concealed(clip_tools::lossy_text(bytes)),
        b.system == System::Linux && !b.wayland && b.xclip && world(
            QueryView::Tool(Ask::XclipTypes),
        ) == ReplyView::Output(Some(bytes)) ==> is_concealed(world, b)
            == clip_tools::lists_concealed(clip_tools::lossy_text(bytes)),
        b.system == System::MacOs && world(QueryView::Tool(Ask::MacConcealed)) == ReplyView::Flag(
            flag,
        ) ==> is_concealed(world, b) == flag,
        b.system == System::Other ==> !is_concealed(world, b),
{
}

/// A list of URIs is read as one, a GNOME payload as one, and what macOS gives
/// are paths already or one file URI.
pub proof fn file_answers_are_read_by_their_kind(
    t: Seq<char>,
    paths: Seq<Seq<char>>,
    url: Seq<char>,
)
    requires
        t.len() > 0,
        !clip_text::utf16_like(encode_utf8(t)),
    ensures
        paths_told(Ask::WlUriList, ReplyView::Output(Some(encode_utf8(t))))
            == clip_files::uri_list_paths(t),
        paths_told(Ask::XclipUriList, ReplyView::Output(Some(encode_utf8(t))))
            == clip_files::uri_list_paths(t),
        paths_told(Ask::WlGnomeFiles, ReplyView::Output(Some(encode_utf8(t))))
            == clip_files::gnome_paths(t),
        paths_told(Ask::MacFileNames, ReplyView::Paths(paths)) == paths,
        clip_files::uri_path(url) matches Some(path) ==> paths_told(
            Ask::MacFileUrl,
            ReplyView::Text(Some(url)),
        ) == seq![path],
        clip_files::uri_path(url) is None ==> paths_told(
            Ask::MacFileUrl,
            ReplyView::Text(Some(url)),
        ).len() == 0,
{
    clip_text::utf8_text_is_read_back(t);
}

/// On macOS a picture of the type `public.png` is taken as it is, and one of any
/// other type is converted. The clipboard of this process gives pixels.
pub proof fn picture_answers_are_read_by_their_kind(
    bytes: Seq<u8>,
    k: usize,
    width: nat,
    height: nat,
    pixels: Seq<u8>,
)
    requires
        k < 4,
    ensures
        bytes.len() > 0 ==> pixels_told(Ask::MacImage(0), ReplyView::Output(Some(bytes))) == Some(
            bytes,
        ),
        bytes.len() > 0 && k > 0 ==> pixels_told(Ask::MacImage(k), ReplyView::Output(Some(bytes)))
            == clip_image::png_of_bytes(bytes),
        bytes.len() == 0 ==> pixels_told(Ask::MacImage(k), ReplyView::Output(Some(bytes))) is None,
        clip_image::png_of_pixels(width, height, pixels) matches Ok(png) ==> pixels_told(
            Ask::ArboardImage,
            ReplyView::Picture(Some((width, height, pixels))),
        ) == Some(png),
        clip_image::png_of_pixels(width, height, pixels) is Err ==> pixels_told(
            Ask::ArboardImage,
            ReplyView::Picture(Some((width, height, pixels))),
        ) is None,
{
    reveal_strlit("png");
    reveal_strlit("public.");
    reveal_strlit("public.png");
    reveal_strlit("Apple PNG pasteboard type");
    reveal_strlit("public.tiff");
    reveal_strlit("public.jpeg");
    let types = mac_image_types();
    assert("public.png"@ =~= "public."@ + "png"@ + seq![]);
    text::parts_are_found("public.png"@, "public."@, "png"@, seq![]);
    assert(types[0] == "public.png"@);
    if k > 0 {
        let name = types[k as int];
        assert forall|i: int| 0 <= i < name.len() implies #[trigger] name[i] != 'n' by {}
        if text::contains(name, "png"@) {
            text::parts_are_found(name, seq![], "png"@, seq![]);
            let (a, b) = choose|a: Seq<char>, b: Seq<char>| name == #[trigger] (a + "png"@ + b);
            assert(name[a.len() as int + 1] == 'n');
        }
    }
}

/// A text of zero characters only is none: `wl-paste` is then asked for the next
/// type, while from `xclip` it counts as an empty text. What is not UTF-8 is no
/// text from `pbpaste`. An answer that does not fit the question gives nothing,
/// and conceals.
pub proof fn odd_answers_give_nothing(zeros: Seq<char>, k: usize, flag: bool, output: Option<Seq<u8>>)
    requires
        clip_text::all_zeros(zeros),
        zeros.len() > 0,
    ensures
        text_told(Ask::WlText(k), ReplyView::Output(Some(encode_utf8(zeros)))) is None,
        text_told(Ask::XclipText, ReplyView::Output(Some(encode_utf8(zeros)))) == Some(
            Seq::<char>::empty(),
        ),
        output matches Some(bytes) ==> !valid_utf8(bytes) ==> text_told(
            Ask::PbText,
            ReplyView::Output(output),
        ) is None,
        text_told(Ask::WlText(k), ReplyView::Flag(flag)) is None,
        text_told(Ask::ArboardText, ReplyView::Output(output)) is None,
        text_told(Ask::ArboardText, ReplyView::Text(Some(Seq::<char>::empty()))) is None,
        conceals(Ask::MacConcealed, ReplyView::Output(output)),
        conceals(Ask::WlTypes, ReplyView::Flag(flag)),
        conceals(Ask::XclipTypes, ReplyView::Flag(flag)),
        conceals(Ask::WlTypes, ReplyView::Output(None)),
{
    let none = Seq::<char>::empty();
    clip_text::only_trailing_zeros_are_dropped(none, zeros);
    assert(none + zeros =~= zeros);
    let bytes = encode_utf8(zeros);
    encode_utf8_valid_utf8(zeros);
    encode_utf8_decode_utf8(zeros);
    lemma_zeros_start_with_zero(zeros);
    if clip_text::utf16_like(bytes) {
        assert(bytes[2 * 0int + 1] == 0 && bytes[2 * 0int] != 0);
    }
}

proof fn lemma_zeros_start_with_zero(zeros: Seq<char>)
    requires
        clip_text::all_zeros(zeros),
        zeros.len() > 0,
    ensures
        encode_utf8(zeros).len() > 0,
        encode_utf8(zeros)[0] == 0,
{
    assert(zeros[0] == '\0');
    assert(encode_utf8(zeros) == encode_scalar(0) + encode_utf8(zeros.drop_first()));
    assert(0u32 & 0x7F == 0) by (bit_vector);
}

/// Whether two worlds give the same answers, but that one has no files on its
/// clipboard.
pub open spec fn same_but_for_files(
    world: spec_fn(QueryView) -> ReplyView,
    quiet: spec_fn(QueryView) -> ReplyView,
    b: Backends,
) -> bool {
    &&& silent(quiet, file_asks(b), file_asks(b).len() as int)
    &&& forall|ask: Ask|
        !file_asks(b).contains(ask) ==> #[trigger] world(QueryView::Tool(ask)) == quiet(
            QueryView::Tool(ask),
        )
}

proof fn lemma_same_but_for_files(
    world: spec_fn(QueryView) -> ReplyView,
    quiet: spec_fn(QueryView) -> ReplyView,
    b: Backends,
)
    requires
        same_but_for_files(world, quiet, b),
    ensures
        first_paths(quiet, file_asks(b), 0).len() == 0,
        first_pixels(world, pixel_asks(b), 0) == first_pixels(quiet, pixel_asks(b), 0),
        first_text(world, text_asks(b), 0) == first_text(quiet, text_asks(b), 0),
        is_concealed(world, b) == is_concealed(quiet, b),
{
    lemma_silent_paths(quiet, file_asks(b), 0, file_asks(b).len() as int);
    let files = file_asks(b);
    assert forall|i: int| 0 <= i < pixel_asks(b).len() implies !files.contains(
        #[trigger] pixel_asks(b)[i],
    ) by {
        lemma_not_for_files(b, pixel_asks(b)[i]);
    }
    assert forall|i: int| 0 <= i < text_asks(b).len() implies !files.contains(
        #[trigger] text_asks(b)[i],
    ) by {
        lemma_text_asks(b, i);
        lemma_not_for_files(b, text_asks(b)[i]);
    }
    lemma_same_pixels(world, quiet, b, 0);
    lemma_same_text(world, quiet, b, 0);
    if conceal_ask(b) is Some {
        lemma_not_for_files(b, conceal_ask(b)->0);
        assert(world(QueryView::Tool(conceal_ask(b)->0)) == quiet(
            QueryView::Tool(conceal_ask(b)->0),
        ));
    }
}

proof fn lemma_not_for_files(b: Backends, ask: Ask)
    requires
        !(ask is WlGnomeFiles || ask is WlUriList || ask is XclipUriList || ask is MacFileNames
            || ask is MacFileUrl),
    ensures
        !file_asks(b).contains(ask),
{
}

proof fn lemma_same_pixels(
    world: spec_fn(QueryView) -> ReplyView,
    quiet: spec_fn(QueryView) -> ReplyView,
    b: Backends,
    k: int,
)
    requires
        same_but_for_files(world, quiet, b),
        0 <= k <= pixel_asks(b).len(),
        forall|i: int|
            0 <= i < pixel_asks(b).len() ==> !file_asks(b).contains(#[trigger] pixel_asks(b)[i]),
    ensures
        first_pixels(world, pixel_asks(b), k) == first_pixels(quiet, pixel_asks(b), k),
    decreases pixel_asks(b).len() - k,
{
    if k < pixel_asks(b).len() {
        let ask = pixel_asks(b)[k];
        assert(world(QueryView::Tool(ask)) == quiet(QueryView::Tool(ask)));
        lemma_same_pixels(world, quiet, b, k + 1);
    }
}

proof fn lemma_same_text(
    world: spec_fn(QueryView) -> ReplyView,
    quiet: spec_fn(QueryView) -> ReplyView,
    b: Backends,
    k: int,
)
    requires
        same_but_for_files(world, quiet, b),
        0 <= k <= text_asks(b).len(),
        forall|i: int|
            0 <= i < text_asks(b).len() ==> !file_asks(b).contains(#[trigger] text_asks(b)[i]),
    ensures
        first_text(world, text_asks(b), k) == first_text(quiet, text_asks(b), k),
    decreases text_asks(b).len() - k,
{
    if k < text_asks(b).len() {
        let ask = text_asks(b)[k];
        assert(world(QueryView::Tool(ask)) == quiet(QueryView::Tool(ask)));
        lemma_same_text(world, quiet, b, k + 1);
    }
}

/// Several files, and a single one that is no file, has no picture name or gives
/// no picture, count as if no file were on the clipboard: pixels and text are
/// found as they would be without them.
pub proof fn other_files_do_not_matter(
    world: spec_fn(QueryView) -> ReplyView,
    quiet: spec_fn(QueryView) -> ReplyView,
    cb: ClipboardView,
    b: Backends,
    k: int,
    file: Seq<char>,
    data: Seq<u8>,
)
    requires
        same_but_for_files(world, quiet, b),
        0 <= k < file_asks(b).len(),
        silent(world, file_asks(b), k),
        ({
            let paths = paths_told(file_asks(b)[k], world(QueryView::Tool(file_asks(b)[k])));
            ||| paths.len() > 1
            ||| paths.len() == 1 && world(QueryView::Facts(paths[0])) == ReplyView::Facts(None)
            ||| paths.len() == 1 && (world(QueryView::Facts(paths[0])) matches ReplyView::Facts(
                Some(facts),
            ) && (!facts.is_file || (cb.file_identity != Some(identity_text(paths[0], facts))
                && world(QueryView::Resolve(paths[0])) == ReplyView::Text(Some(file)) && (
            !clip_files::image_path(file) || world(QueryView::Load(file)) == ReplyView::Output(
                None,
            ) || (world(QueryView::Load(file)) == ReplyView::Output(Some(data))
                && clip_image::png_of_file(clip_files::file_name(file)->0, data) is None)))))
        }),
    ensures
        run(world, started(cb, b).0, started(cb, b).1).1 == run(
            quiet,
            started(cb, b).0,
            started(cb, b).1,
        ).1,
{
    reading_finds_the_content(world, cb, b);
    reading_finds_the_content(quiet, cb, b);
    lemma_same_but_for_files(world, quiet, b);
    lemma_silent_paths(world, file_asks(b), 0, k);
}

proof fn lemma_run_silent_files(
    world: spec_fn(QueryView) -> ReplyView,
    cb: ClipboardView,
    reading: ReadingView,
    k: int,
    n: int,
)
    requires
        0 <= k <= n <= file_asks(reading.backends).len(),
        silent(world, file_asks(reading.backends), n),
    ensures
        run(world, reading.at_files(cb, k).0, reading.at_files(cb, k).1) == run(
            world,
            reading.at_files(cb, n).0,
            reading.at_files(cb, n).1,
        ),
    decreases n - k,
{
    if k < n {
        let asks = file_asks(reading.backends);
        let here = ReadingView { stage: StageView::Files(k), ..reading };
        assert(says_nothing(world(QueryView::Tool(asks[k]))));
        assert(here.at_files(cb, k + 1) == reading.at_files(cb, k + 1));
        let next = resumed(cb, here, world(here.question()));
        assert(next == reading.at_files(cb, k + 1));
        assert(run(world, cb, StepView::Waiting(here)) == run(world, next.0, next.1));
        lemma_run_silent_files(world, cb, reading, k + 1, n);
    }
}

proof fn lemma_run_from_start(
    world: spec_fn(QueryView) -> ReplyView,
    cb: ClipboardView,
    b: Backends,
) -> (reading: ReadingView)
    ensures
        reading == (ReadingView {
            backends: b,
            concealed: is_concealed(world, b),
            stage: StageView::Conceal,
        }),
        run(world, started(cb, b).0, started(cb, b).1) == run(
            world,
            reading.at_files(cb, 0).0,
            reading.at_files(cb, 0).1,
        ),
{
    let reading = ReadingView {
        backends: b,
        concealed: is_concealed(world, b),
        stage: StageView::Conceal,
    };
    if conceal_ask(b) is Some {
        let first = ReadingView {
            backends: b,
            concealed: concealed_unasked(b),
            stage: StageView::Conceal,
        };
        let next = resumed(cb, first, world(first.question()));
        assert(next == reading.at_files(cb, 0));
        assert(run(world, cb, StepView::Waiting(first)) == run(world, next.0, next.1));
    }
    reading
}

/// A reading that meets no file forgets the picture file that was read last, and
/// changes nothing else that is known of the clipboard.
pub proof fn readings_without_files_forget_the_file(
    world: spec_fn(QueryView) -> ReplyView,
    cb: ClipboardView,
    b: Backends,
)
    requires
        silent(world, file_asks(b), file_asks(b).len() as int),
    ensures
        run(world, started(cb, b).0, started(cb, b).1).0 == (ClipboardView {
            file_identity: None,
            file_clip: None,
            ..cb
        }),
{
    let reading = lemma_run_from_start(world, cb, b);
    lemma_run_silent_files(world, cb, reading, 0, file_asks(b).len() as int);
    lemma_run_pixels(world, cb.without_file(), reading, 0);
}

/// A picture file that was read is remembered under its path, its length and the
/// time of its last change. A second reading that finds the file unchanged finds
/// the same clip.
pub proof fn picture_files_are_remembered(
    world: spec_fn(QueryView) -> ReplyView,
    cb: ClipboardView,
    b: Backends,
    k: int,
    path: Seq<char>,
    facts: FileFacts,
    file: Seq<char>,
    data: Seq<u8>,
)
    requires
        0 <= k < file_asks(b).len(),
        silent(world, file_asks(b), k),
        paths_told(file_asks(b)[k], world(QueryView::Tool(file_asks(b)[k]))) == seq![path],
        world(QueryView::Facts(path)) == ReplyView::Facts(Some(facts)),
        facts.is_file,
        cb.file_identity != Some(identity_text(path, facts)),
        world(QueryView::Resolve(path)) == ReplyView::Text(Some(file)),
        clip_files::image_path(file),
        world(QueryView::Load(file)) == ReplyView::Output(Some(data)),
        clip_image::png_of_file(clip_files::file_name(file)->0, data) is Some,
    ensures
        ({
            let first = run(world, started(cb, b).0, started(cb, b).1);
            let second = run(world, started(first.0, b).0, started(first.0, b).1);
            &&& first.0 == (ClipboardView {
                file_identity: Some(identity_text(path, facts)),
                file_clip: first.1,
                ..cb
            })
            &&& first.1 is Some
            &&& second.1 == first.1
        }),
{
    let asks = file_asks(b);
    let identity = identity_text(path, facts);
    let reading = lemma_run_from_start(world, cb, b);
    lemma_run_silent_files(world, cb, reading, 0, k);
    let here = ReadingView { stage: StageView::Files(k), ..reading };
    let facts_at = ReadingView { stage: StageView::Facts(path), ..reading };
    let resolve_at = ReadingView { stage: StageView::Resolve(path, identity), ..reading };
    let load_at = ReadingView { stage: StageView::Load(file, identity), ..reading };
    let s1 = resumed(cb, here, world(here.question()));
    assert(s1 == (cb, StepView::Waiting(facts_at)));
    assert(run(world, cb, StepView::Waiting(here)) == run(world, cb, StepView::Waiting(facts_at)));
    let s2 = resumed(cb, facts_at, world(facts_at.question()));
    assert(s2 == (cb, StepView::Waiting(resolve_at)));
    assert(run(world, cb, StepView::Waiting(facts_at)) == run(
        world,
        cb,
        StepView::Waiting(resolve_at),
    ));
    let s3 = resumed(cb, resolve_at, world(resolve_at.question()));
    assert(s3 == (cb, StepView::Waiting(load_at)));
    assert(run(world, cb, StepView::Waiting(resolve_at)) == run(
        world,
        cb,
        StepView::Waiting(load_at),
    ));
    let s4 = resumed(cb, load_at, world(load_at.question()));
    assert(run(world, cb, StepView::Waiting(load_at)) == run(world, s4.0, s4.1));
    let first = run(world, started(cb, b).0, started(cb, b).1);
    unchanged_picture_files_are_remembered(world, first.0, b, k, path, facts, first.1->0);
}

/// Text is asked for in these forms, the plain one first, and macOS is asked for
/// pictures in these, PNG first.
pub proof fn forms_are_asked_for_in_their_order()
    ensures
        text_mimes() == seq![
            "text/plain"@,
            "text/plain;charset=utf-8"@,
            "TEXT"@,
            "STRING"@,
            "UTF8_STRING"@,
        ],
        mac_image_types() == seq![
            "public.png"@,
            "Apple PNG pasteboard type"@,
            "public.tiff"@,
            "public.jpeg"@,
        ],
{
}

/// A text without zero characters, with any number of lines, that the first
/// program to be asked prints in UTF-8 is the clip, byte for byte, where there
/// are neither files nor pixels.
pub proof fn printed_text_is_the_clip(
    world: spec_fn(QueryView) -> ReplyView,
    cb: ClipboardView,
    b: Backends,
    t: Seq<char>,
)
    requires
        text_asks(b).len() > 0,
        silent(world, file_asks(b), file_asks(b).len() as int),
        silent(world, pixel_asks(b), pixel_asks(b).len() as int),
        t.len() > 0,
        forall|i: int| 0 <= i < t.len() ==> #[trigger] t[i] != '\0',
        world(QueryView::Tool(text_asks(b)[0])) == ReplyView::Output(Some(encode_utf8(t))),
        !(text_asks(b)[0] is ArboardText),
    ensures
        run(world, started(cb, b).0, started(cb, b).1).1 == Some(
            ClipView {
                mime: "text/plain"@,
                bytes: encode_utf8(t),
                concealed: is_concealed(world, b),
            },
        ),
{
    let none = Seq::<char>::empty();
    clip_text::plain_text_is_read_back(t);
    assert(t + none =~= t);
    assert(t.last() != '\0');
    texts_are_found_whole(world, cb, b, 0, t, none);
}

} // verus!
