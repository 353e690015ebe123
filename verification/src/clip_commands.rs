//! The command lines by which clipboard questions are asked and clips are
//! written.

use vstd::prelude::*;
use vstd::string::*;

use crate::clip_image;
use crate::clip_image::{image_paste_mime, MAX_PAYLOAD_BYTES};
use crate::clip_read;
use crate::clip_read::{text_paste_mime, Ask};
use crate::clip_tools::{Backends, System};

verus! {

/// The most that is read of a list of types or of paths.
pub const MAX_LIST_BYTES: usize = 65_536;

/// What a list of words says.
pub open spec fn words_view(words: Seq<&'static str>) -> Seq<Seq<char>> {
    words.map_values(|w: &'static str| w@)
}

// ---- reading ----

/// The call of a program, and how much of its output is taken.
#[derive(Debug)]
pub struct CommandLine {
    /// The program, then its arguments.
    pub words: Vec<&'static str>,
    pub max_bytes: usize,
}

/// The words of the program call that answers a question, if a program does.
pub open spec fn command_words(ask: Ask) -> Option<Seq<Seq<char>>> {
    match ask {
        Ask::WlTypes => Some(seq!["wl-paste"@, "--list-types"@]),
        Ask::XclipTypes => Some(
            seq!["xclip"@, "-selection"@, "clipboard"@, "-t"@, "TARGETS"@, "-o"@],
        ),
        Ask::WlGnomeFiles => Some(seq!["wl-paste"@, "-t"@, "x-special/gnome-copied-files"@]),
        Ask::WlUriList => Some(seq!["wl-paste"@, "-t"@, "text/uri-list"@]),
        Ask::XclipUriList => Some(
            seq!["xclip"@, "-selection"@, "clipboard"@, "-t"@, "text/uri-list"@, "-o"@],
        ),
        Ask::WlImage(k) => if k < clip_image::image_mimes().len() {
            Some(seq!["wl-paste"@, "-t"@, clip_image::image_mimes()[k as int]])
        } else {
            None
        },
        Ask::XclipImage(k) => if k < clip_image::image_mimes().len() {
            Some(
                seq![
                    "xclip"@,
                    "-selection"@,
                    "clipboard"@,
                    "-t"@,
                    clip_image::image_mimes()[k as int],
                    "-o"@,
                ],
            )
        } else {
            None
        },
        Ask::WlText(k) => if k < clip_read::text_mimes().len() {
            Some(seq!["wl-paste"@, "-t"@, clip_read::text_mimes()[k as int], "--no-newline"@])
        } else {
            None
        },
        Ask::XclipText => Some(seq!["xclip"@, "-selection"@, "clipboard"@, "-o"@]),
        Ask::PbText => Some(seq!["pbpaste"@]),
        _ => None,
    }
}

/// How much of the answer to a question is taken.
pub open spec fn answer_limit(ask: Ask) -> usize {
    match ask {
        Ask::WlTypes => MAX_LIST_BYTES,
        Ask::XclipTypes => MAX_LIST_BYTES,
        Ask::WlGnomeFiles => MAX_LIST_BYTES,
        Ask::WlUriList => MAX_LIST_BYTES,
        Ask::XclipUriList => MAX_LIST_BYTES,
        _ => MAX_PAYLOAD_BYTES,
    }
}

fn line(words: Vec<&'static str>, max_bytes: usize) -> (r: Option<CommandLine>)
    ensures
        r matches Some(c) && c.words == words && c.max_bytes == max_bytes,
{
    Some(CommandLine { words, max_bytes })
}

/// The program call that answers a question, if a program does.
pub fn command_of(ask: Ask) -> (r: Option<CommandLine>)
    ensures
        r is Some <==> command_words(ask) is Some,
        r matches Some(c) ==> command_words(ask) == Some(words_view(c.words@)) && c.max_bytes
            == answer_limit(ask),
{
    let r = match ask {
        Ask::WlTypes => line(vec!["wl-paste", "--list-types"], MAX_LIST_BYTES),
        Ask::XclipTypes => line(
            vec!["xclip", "-selection", "clipboard", "-t", "TARGETS", "-o"],
            MAX_LIST_BYTES,
        ),
        Ask::WlGnomeFiles => line(
            vec!["wl-paste", "-t", "x-special/gnome-copied-files"],
            MAX_LIST_BYTES,
        ),
        Ask::WlUriList => line(vec!["wl-paste", "-t", "text/uri-list"], MAX_LIST_BYTES),
        Ask::XclipUriList => line(
            vec!["xclip", "-selection", "clipboard", "-t", "text/uri-list", "-o"],
            MAX_LIST_BYTES,
        ),
        Ask::WlImage(k) => match image_paste_mime(k) {
            Some(mime) => line(vec!["wl-paste", "-t", mime], MAX_PAYLOAD_BYTES),
            None => None,
        },
        Ask::XclipImage(k) => match image_paste_mime(k) {
            Some(mime) => line(
                vec!["xclip", "-selection", "clipboard", "-t", mime, "-o"],
                MAX_PAYLOAD_BYTES,
            ),
            None => None,
        },
        Ask::WlText(k) => match text_paste_mime(k) {
            Some(mime) => line(vec!["wl-paste", "-t", mime, "--no-newline"], MAX_PAYLOAD_BYTES),
            None => None,
        },
        Ask::XclipText => line(vec!["xclip", "-selection", "clipboard", "-o"], MAX_PAYLOAD_BYTES),
        Ask::PbText => line(vec!["pbpaste"], MAX_PAYLOAD_BYTES),
        _ => None,
    };
    proof {
        if r is Some {
            assert(words_view(r->0.words@) =~= command_words(ask)->0);
        }
    }
    r
}

// ---- writing ----

/// What is written to the clipboard.
#[derive(Debug, Clone, Copy, PartialEq, Eq, Structural)]
pub enum WriteKind {
    Text,
    Image,
    /// The clipboard is cleared.
    Clear,
}

/// What can write to the clipboard.
#[derive(Debug, Clone, Copy, PartialEq, Eq, Structural)]
pub enum Writer {
    /// The clipboard that is open in this process.
    Arboard,
    WlCopy,
    Xclip,
    PbCopy,
    /// The pasteboard of macOS, for pictures.
    Pasteboard,
}

/// What is tried to write to the clipboard, in this order. All of it is tried.
pub open spec fn writers_for(b: Backends, kind: WriteKind) -> Seq<Writer> {
    (if b.arboard {
        seq![Writer::Arboard]
    } else {
        seq![]
    }) + (if b.can_wl_copy() {
        seq![Writer::WlCopy]
    } else {
        seq![]
    }) + (if b.can_xclip() {
        seq![Writer::Xclip]
    } else {
        seq![]
    }) + (if b.system != System::MacOs {
        seq![]
    } else if kind == WriteKind::Image {
        seq![Writer::Pasteboard]
    } else {
        seq![Writer::PbCopy]
    })
}

/// Lists what is tried to write to the clipboard.
pub fn writers(b: &Backends, kind: WriteKind) -> (r: Vec<Writer>)
    ensures
        r@ == writers_for(*b, kind),
{
    let mut out: Vec<Writer> = Vec::new();
    if b.arboard {
        out.push(Writer::Arboard);
    }
    if b.wl_copy_usable() {
        out.push(Writer::WlCopy);
    }
    if b.xclip_usable() {
        out.push(Writer::Xclip);
    }
    if b.system == System::MacOs {
        if kind == WriteKind::Image {
            out.push(Writer::Pasteboard);
        } else {
            out.push(Writer::PbCopy);
        }
    }
    assert(out@ =~= writers_for(*b, kind));
    out
}

/// The words of the program call that writes, where a program does.
pub open spec fn writer_words(writer: Writer, kind: WriteKind) -> Option<Seq<Seq<char>>> {
    match (writer, kind) {
        (Writer::WlCopy, WriteKind::Text) => Some(seq!["wl-copy"@]),
        (Writer::WlCopy, WriteKind::Image) => Some(seq!["wl-copy"@, "-t"@, "image/png"@]),
        (Writer::WlCopy, WriteKind::Clear) => Some(seq!["wl-copy"@, "--clear"@]),
        (Writer::Xclip, WriteKind::Image) => Some(
            seq!["xclip"@, "-selection"@, "clipboard"@, "-t"@, "image/png"@],
        ),
        (Writer::Xclip, _) => Some(seq!["xclip"@, "-selection"@, "clipboard"@]),
        (Writer::PbCopy, WriteKind::Text) => Some(seq!["pbcopy"@]),
        (Writer::PbCopy, WriteKind::Clear) => Some(seq!["pbcopy"@]),
        _ => None,
    }
}

/// The program call that writes, where a program does. It reads what it writes
/// from its input; where `xclip` or `pbcopy` clears, that is empty.
pub fn writer_command(writer: Writer, kind: WriteKind) -> (r: Option<Vec<&'static str>>)
    ensures
        r is Some <==> writer_words(writer, kind) is Some,
        r matches Some(words) ==> writer_words(writer, kind) == Some(words_view(words@)),
{
    let r: Option<Vec<&'static str>> = match (writer, kind) {
        (Writer::WlCopy, WriteKind::Text) => Some(vec!["wl-copy"]),
        (Writer::WlCopy, WriteKind::Image) => Some(vec!["wl-copy", "-t", "image/png"]),
        (Writer::WlCopy, WriteKind::Clear) => Some(vec!["wl-copy", "--clear"]),
        (Writer::Xclip, WriteKind::Image) => Some(
            vec!["xclip", "-selection", "clipboard", "-t", "image/png"],
        ),
        (Writer::Xclip, _) => Some(vec!["xclip", "-selection", "clipboard"]),
        (Writer::PbCopy, WriteKind::Text) => Some(vec!["pbcopy"]),
        (Writer::PbCopy, WriteKind::Clear) => Some(vec!["pbcopy"]),
        _ => None,
    };
    proof {
        if r is Some {
            assert(words_view(r->0@) =~= writer_words(writer, kind)->0);
        }
    }
    r
}

/// Whether a write counts as done: at least one of what was tried did it.
pub fn write_done(results: &Vec<bool>) -> (r: bool)
    ensures
        r <==> exists|i: int| 0 <= i < results@.len() && #[trigger] results@[i],
{
    let mut i: usize = 0;
    while i < results.len()
        invariant
            i <= results@.len(),
            forall|j: int| 0 <= j < i ==> !(#[trigger] results@[j]),
        decreases results@.len() - i,
    {
        if results[i] {
            return true;
        }
        i += 1;
    }
    false
}

// ---- laws ----

/// A question is answered by the program that it is for, which is asked for the
/// type in question. Text is asked for without a line feed added to it.
pub proof fn commands_ask_for_the_type(k: usize)
    ensures
        command_words(Ask::WlImage(k)) matches Some(words) ==> words[0] == "wl-paste"@
            && words.len() == 3 && words[1] == "-t"@ && words[2]
            == clip_image::image_mimes()[k as int],
        command_words(Ask::XclipImage(k)) matches Some(words) ==> words[0] == "xclip"@
            && words[words.len() - 2] == clip_image::image_mimes()[k as int] && words.last()
            == "-o"@,
        command_words(Ask::WlText(k)) matches Some(words) ==> words[0] == "wl-paste"@ && words[1]
            == "-t"@ && words[2] == clip_read::text_mimes()[k as int] && words.last()
            == "--no-newline"@,
        command_words(Ask::WlImage(k)) is Some <==> k < 7,
        command_words(Ask::XclipImage(k)) is Some <==> k < 7,
        command_words(Ask::WlText(k)) is Some <==> k < 5,
        command_words(Ask::WlUriList) matches Some(words) && words[0] == "wl-paste"@
            && words.last() == "text/uri-list"@,
        command_words(Ask::WlGnomeFiles) matches Some(words) && words[0] == "wl-paste"@
            && words.last() == "x-special/gnome-copied-files"@,
        command_words(Ask::XclipUriList) matches Some(words) && words[0] == "xclip"@
            && words[words.len() - 2] == "text/uri-list"@ && words.last() == "-o"@,
        command_words(Ask::WlTypes) matches Some(words) && words[0] == "wl-paste"@ && words.last()
            == "--list-types"@,
        command_words(Ask::XclipTypes) matches Some(words) && words[0] == "xclip"@
            && words[words.len() - 2] == "TARGETS"@ && words.last() == "-o"@,
        command_words(Ask::XclipText) matches Some(words) && words[0] == "xclip"@ && words.last()
            == "-o"@,
        command_words(Ask::PbText) == Some(seq!["pbpaste"@]),
{
}

/// `xclip` is always asked for the clipboard, not for another selection.
pub proof fn xclip_is_asked_for_the_clipboard(ask: Ask, kind: WriteKind)
    ensures
        command_words(ask) matches Some(words) ==> words[0] == "xclip"@ ==> words.len() >= 3
            && words[1] == "-selection"@ && words[2] == "clipboard"@,
        writer_words(Writer::Xclip, kind) matches Some(words) && words.len() >= 3 && words[0]
            == "xclip"@ && words[1] == "-selection"@ && words[2] == "clipboard"@,
{
    reveal_strlit("xclip");
    reveal_strlit("wl-paste");
    reveal_strlit("pbpaste");
    assert("xclip"@[0] == 'x' && "wl-paste"@[0] == 'w' && "pbpaste"@[0] == 'p');
}

/// A list of types or paths is read up to 64 KiB, anything else up to 8 MiB.
pub proof fn answers_are_limited(ask: Ask)
    ensures
        ask is WlTypes || ask is XclipTypes || ask is WlGnomeFiles || ask is WlUriList
            || ask is XclipUriList ==> answer_limit(ask) == 64 * 1024,
        ask is WlImage || ask is XclipImage || ask is WlText || ask is XclipText || ask is PbText
            ==> answer_limit(ask) == 8 * 1024 * 1024,
{
}

/// Everything that can write to the clipboard is tried, and nothing else. On
/// macOS pictures and texts go different ways.
pub proof fn every_writer_is_tried(b: Backends, kind: WriteKind)
    ensures
        writers_for(b, kind).contains(Writer::Arboard) <==> b.arboard,
        writers_for(b, kind).contains(Writer::WlCopy) <==> b.wayland && b.wl_copy,
        writers_for(b, kind).contains(Writer::Xclip) <==> !b.wayland && b.xclip,
        writers_for(b, kind).contains(Writer::PbCopy) <==> b.system == System::MacOs && kind
            != WriteKind::Image,
        writers_for(b, kind).contains(Writer::Pasteboard) <==> b.system == System::MacOs && kind
            == WriteKind::Image,
{
    let w = writers_for(b, kind);
    let a: int = if b.arboard {
        1
    } else {
        0
    };
    if b.arboard {
        assert(w[0] == Writer::Arboard);
    }
    if b.can_wl_copy() {
        assert(w[a] == Writer::WlCopy);
    }
    if b.can_xclip() {
        assert(w[a] == Writer::Xclip);
    }
    if b.system == System::MacOs {
        assert(w.last() == Writer::PbCopy || w.last() == Writer::Pasteboard);
    }
}

/// A picture is written with its type, a text without one.
pub proof fn pictures_are_written_with_their_type(writer: Writer)
    ensures
        writer is WlCopy || writer is Xclip ==> {
            &&& writer_words(writer, WriteKind::Image) matches Some(words) && words[words.len() - 2]
                == "-t"@ && words.last() == "image/png"@
            &&& writer_words(writer, WriteKind::Text) matches Some(words) && !words.contains("-t"@)
        },
        writer is WlCopy ==> (writer_words(writer, WriteKind::Clear) matches Some(words)
            && words == seq!["wl-copy"@, "--clear"@]),
        writer is Xclip || writer is PbCopy ==> writer_words(writer, WriteKind::Clear)
            == writer_words(writer, WriteKind::Text),
{
    reveal_strlit("-t");
    reveal_strlit("wl-copy");
    reveal_strlit("xclip");
    reveal_strlit("-selection");
    reveal_strlit("clipboard");
    assert("-t"@.len() == 2 && "wl-copy"@.len() == 7 && "xclip"@.len() == 5 && "-selection"@.len()
        == 10 && "clipboard"@.len() == 9);
}

/// What words say is told one by one.
pub proof fn words_are_told_in_order(words: Seq<&'static str>, i: int)
    ensures
        words_view(words).len() == words.len(),
        0 <= i < words.len() ==> words_view(words)[i] == words[i]@,
{
}

} // verus!
