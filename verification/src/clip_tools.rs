//! The programs and interfaces by which a clipboard is reached: which there
//! are, how they are called and what of their output is taken.

use vstd::prelude::*;
use vstd::string::*;
use vstd::utf8::*;

use crate::text;
use crate::text::{chars_of, has_part, has_prefix, lines_of, lowercase_of};

verus! {

// ---- lossy text ----

/// The text of bytes that may not be UTF-8, with replacement characters.
pub uninterp spec fn lossy_text(bytes: Seq<u8>) -> Seq<char>;

/// `String::from_utf8_lossy` reads bytes as UTF-8 and replaces what is not. Its
/// result depends on the bytes alone and is the text itself where the bytes
/// are UTF-8. What replaces invalid bytes stays unsaid.
#[verifier::external_body]
pub(crate) fn text_of_bytes(bytes: &[u8]) -> (r: String)
    ensures
        r@ == lossy_text(bytes@),
        valid_utf8(bytes@) ==> r@ == decode_utf8(bytes@),
{
    String::from_utf8_lossy(bytes).into_owned()
}

// ---- what there is ----

/// The kind of system this is.
#[derive(Debug, Clone, Copy, PartialEq, Eq, Structural)]
pub enum System {
    Linux,
    MacOs,
    Other,
}

/// What is there to reach the clipboard with.
#[derive(Debug, Clone, Copy, PartialEq, Eq, Structural)]
pub struct Backends {
    pub system: System,
    /// Whether a Wayland compositor is reachable.
    pub wayland: bool,
    /// Whether `wl-copy` is installed.
    pub wl_copy: bool,
    /// Whether `wl-paste` is installed.
    pub wl_paste: bool,
    /// Whether `xclip` is installed.
    pub xclip: bool,
    /// Whether the clipboard could be opened in this process.
    pub arboard: bool,
}

impl Backends {
    pub open spec fn can_wl_paste(self) -> bool {
        self.wayland && self.wl_paste
    }

    pub open spec fn can_wl_copy(self) -> bool {
        self.wayland && self.wl_copy
    }

    pub open spec fn can_xclip(self) -> bool {
        !self.wayland && self.xclip
    }

    /// Whether `wl-paste` can be called.
    pub fn wl_paste_usable(&self) -> (r: bool)
        ensures
            r == self.can_wl_paste(),
    {
        self.wayland && self.wl_paste
    }

    /// Whether `wl-copy` can be called.
    pub fn wl_copy_usable(&self) -> (r: bool)
        ensures
            r == self.can_wl_copy(),
    {
        self.wayland && self.wl_copy
    }

    /// Whether `xclip` can be called. Under Wayland it is not.
    pub fn xclip_usable(&self) -> (r: bool)
        ensures
            r == self.can_xclip(),
    {
        !self.wayland && self.xclip
    }
}

/// The parts of the name of the backends.
pub open spec fn backend_parts(b: Backends) -> Seq<Seq<char>> {
    (if b.arboard {
        seq!["arboard"@]
    } else {
        seq![]
    }) + (if b.wl_copy {
        seq!["wl-clipboard"@]
    } else {
        seq![]
    }) + (if b.xclip {
        seq!["xclip"@]
    } else {
        seq![]
    }) + (if b.system == System::MacOs {
        seq!["nspasteboard"@]
    } else {
        seq![]
    })
}

/// The name of the backends.
pub open spec fn backend_name(b: Backends) -> Seq<char> {
    if backend_parts(b).len() == 0 {
        "none"@
    } else {
        text::joined(backend_parts(b), "+"@)
    }
}

/// Appends a part to a joined text.
fn join_part(out: &mut String, count: &mut usize, part: &str, Ghost(parts): Ghost<Seq<Seq<char>>>)
    requires
        old(out)@ == text::joined(parts, "+"@),
        *old(count) == parts.len(),
        parts.len() < 4,
    ensures
        final(out)@ == text::joined(parts.push(part@), "+"@),
        *final(count) == parts.len() + 1,
{
    assert(parts.push(part@).drop_last() =~= parts);
    if *count > 0 {
        out.append("+");
    } else {
        assert(out@ + part@ =~= part@);
    }
    out.append(part);
    *count = *count + 1;
}

/// Names the backends that are there.
pub fn detect_backend(b: &Backends) -> (r: String)
    ensures
        r@ == backend_name(*b),
{
    let mut out = String::new();
    let mut count: usize = 0;
    let ghost mut parts: Seq<Seq<char>> = seq![];
    if b.arboard {
        join_part(&mut out, &mut count, "arboard", Ghost(parts));
        proof {
            parts = parts.push("arboard"@);
        }
    }
    if b.wl_copy {
        join_part(&mut out, &mut count, "wl-clipboard", Ghost(parts));
        proof {
            parts = parts.push("wl-clipboard"@);
        }
    }
    if b.xclip {
        join_part(&mut out, &mut count, "xclip", Ghost(parts));
        proof {
            parts = parts.push("xclip"@);
        }
    }
    if b.system == System::MacOs {
        join_part(&mut out, &mut count, "nspasteboard", Ghost(parts));
        proof {
            parts = parts.push("nspasteboard"@);
        }
    }
    assert(parts =~= backend_parts(*b));
    if count == 0 {
        "none".to_string()
    } else {
        out
    }
}

// ---- Wayland ----

/// Whether a name is that of a Wayland socket.
pub open spec fn socket_name(name: Seq<char>) -> bool {
    &&& text::starts_with(name, "wayland-"@)
    &&& name.len() > "wayland-"@.len()
    &&& text::all_digits(name.skip("wayland-"@.len() as int))
}

/// Whether a name is that of a Wayland socket.
pub fn is_wayland_socket_name(name: &str) -> (r: bool)
    ensures
        r == socket_name(name@),
{
    let chars = chars_of(name);
    let prefix = chars_of("wayland-");
    if !has_prefix(chars.as_slice(), prefix.as_slice()) || chars.len() == prefix.len() {
        return false;
    }
    let start: usize = prefix.len();
    let mut i: usize = start;
    while i < chars.len()
        invariant
            start <= i <= chars.len(),
            start == "wayland-"@.len(),
            chars@ == name@,
            forall|j: int|
                0 <= j < i - start ==> text::is_digit(#[trigger] name@.skip(start as int)[j]),
        decreases chars.len() - i,
    {
        let c = chars[i];
        if !('0' <= c && c <= '9') {
            assert(!text::is_digit(name@.skip(start as int)[i - start]));
            return false;
        }
        i += 1;
    }
    true
}

/// An entry of the directory in which Wayland sockets are.
#[derive(Debug)]
pub struct SocketEntry {
    pub name: String,
    pub is_socket: bool,
    /// When it was last changed, in nanoseconds since the start of 1970.
    pub modified: i128,
}

/// Whether an entry is a Wayland socket.
pub open spec fn is_candidate(e: SocketEntry) -> bool {
    e.is_socket && socket_name(e.name@)
}

/// Whether the entry at a place is the one to take of the first `n`: a Wayland
/// socket that no other of them has been changed after, and the first of those.
pub open spec fn is_newest_of(entries: Seq<SocketEntry>, n: int, at: int) -> bool {
    &&& 0 <= at < n
    &&& is_candidate(entries[at])
    &&& forall|i: int|
        0 <= i < n && is_candidate(#[trigger] entries[i]) ==> entries[i].modified
            < entries[at].modified || (entries[i].modified == entries[at].modified && at <= i)
}

/// Whether the entry at a place is the one to take.
pub open spec fn is_newest(entries: Seq<SocketEntry>, at: int) -> bool {
    is_newest_of(entries, entries.len() as int, at)
}

/// Picks the Wayland socket among the entries of the directory.
pub fn discover_wayland_socket(entries: &Vec<SocketEntry>) -> (r: Option<String>)
    ensures
        r is Some <==> exists|i: int|
            0 <= i < entries@.len() && is_candidate(#[trigger] entries@[i]),
        r matches Some(name) ==> exists|at: int|
            #[trigger] is_newest(entries@, at) && entries@[at].name@ == name@,
{
    let mut best: usize = entries.len();
    let mut i: usize = 0;
    while i < entries.len()
        invariant
            i <= entries@.len(),
            best == entries@.len() ==> (forall|j: int|
                0 <= j < i ==> !is_candidate(#[trigger] entries@[j])),
            best != entries@.len() ==> is_newest_of(entries@, i as int, best as int),
        decreases entries@.len() - i,
    {
        let candidate = entries[i].is_socket && is_wayland_socket_name(entries[i].name.as_str());
        assert(candidate == is_candidate(entries@[i as int]));
        if candidate && (best == entries.len() || entries[best].modified < entries[i].modified) {
            best = i;
        }
        i += 1;
    }
    if best == entries.len() {
        None
    } else {
        assert(is_newest(entries@, best as int));
        Some(entries[best].name.clone())
    }
}

/// There is at most one socket to take.
pub proof fn newest_socket_is_unique(entries: Seq<SocketEntry>, i: int, j: int)
    requires
        is_newest(entries, i),
        is_newest(entries, j),
    ensures
        i == j,
{
    assert(is_candidate(entries[i]) && is_candidate(entries[j]));
}

/// The name of the Wayland display: that of the environment where it is set
/// and not empty, and the discovered one otherwise.
pub fn wayland_display(variable: Option<&str>, discovered: Option<String>) -> (r: Option<String>)
    ensures
        (variable matches Some(v) && v@.len() > 0) ==> (r matches Some(d) && d@ == variable->0@),
        !(variable matches Some(v) && v@.len() > 0) ==> r == discovered,
{
    match variable {
        Some(v) => if v.is_empty() {
            discovered
        } else {
            Some(v.to_string())
        },
        None => discovered,
    }
}

/// What to do while a compositor is waited for.
#[derive(Debug, Clone, Copy, PartialEq, Eq, Structural)]
pub enum DisplayWait {
    Ready,
    /// Look again after this many milliseconds.
    Sleep(u64),
    GiveUp,
}

/// Decides whether to wait on for a compositor, which takes at most half a
/// minute.
pub fn display_wait(found: bool, waited_ms: u64) -> (r: DisplayWait)
    ensures
        r == (if found {
            DisplayWait::Ready
        } else if waited_ms < 30_000 {
            DisplayWait::Sleep(250)
        } else {
            DisplayWait::GiveUp
        }),
{
    if found {
        DisplayWait::Ready
    } else if waited_ms < 30_000 {
        DisplayWait::Sleep(250)
    } else {
        DisplayWait::GiveUp
    }
}

// ---- the output of a program ----

/// What to do while a program runs.
#[derive(Debug, Clone, Copy, PartialEq, Eq, Structural)]
pub enum ProgramWait {
    Exited,
    /// Look again after this many milliseconds.
    Sleep(u64),
    Kill,
}

/// Decides whether to wait on for a program, which is given three seconds.
pub fn program_wait(exited: bool, waited_ms: u64) -> (r: ProgramWait)
    ensures
        r == (if exited {
            ProgramWait::Exited
        } else if waited_ms >= 3_000 {
            ProgramWait::Kill
        } else {
            ProgramWait::Sleep(20)
        }),
{
    if exited {
        ProgramWait::Exited
    } else if waited_ms >= 3_000 {
        ProgramWait::Kill
    } else {
        ProgramWait::Sleep(20)
    }
}

/// How many bytes of the output of a program are read: one more than is taken,
/// by which too much output is noticed.
pub fn output_read_limit(max_bytes: usize) -> (r: usize)
    ensures
        r == (if max_bytes == usize::MAX {
            usize::MAX as int
        } else {
            max_bytes + 1
        }),
{
    max_bytes.saturating_add(1)
}

/// Takes the output of a program that succeeded, unless it is too long or
/// could not be read.
pub fn accept_output(output: Option<Vec<u8>>, max_bytes: usize, success: bool) -> (r: Option<
    Vec<u8>,
>)
    ensures
        r == (match output {
            Some(bytes) => if success && bytes@.len() <= max_bytes {
                Some(bytes)
            } else {
                None
            },
            None => None,
        }),
{
    match output {
        Some(bytes) => if bytes.len() > max_bytes || !success {
            None
        } else {
            Some(bytes)
        },
        None => None,
    }
}

// ---- concealment ----

/// Whether the name of a type marks a clipboard as concealed.
pub open spec fn marks_concealed(name: Seq<char>) -> bool {
    let lower = text::lowercase(name);
    text::contains(lower, "passwordmanagerhint"@) || text::contains(
        lower,
        "x-kde-passwordmanagerhint"@,
    ) || text::contains(lower, "concealed"@)
}

/// Whether one of the types that a program listed marks the clipboard as
/// concealed.
pub open spec fn lists_concealed(types: Seq<char>) -> bool {
    exists|i: int|
        0 <= i < text::lines(types).len() && marks_concealed(#[trigger] text::lines(types)[i])
}

/// Whether the clipboard is concealed, by the types that a program listed. A
/// clipboard whose types are not known counts as concealed.
pub open spec fn concealed_by(output: Option<Seq<u8>>) -> bool {
    match output {
        None => true,
        Some(bytes) => lists_concealed(lossy_text(bytes)),
    }
}

/// Whether the types that a program listed mark the clipboard as concealed.
pub fn types_concealed(types: &str) -> (r: bool)
    ensures
        r == lists_concealed(types@),
{
    let chars = chars_of(types);
    let lines = lines_of(chars.as_slice());
    let hint = chars_of("passwordmanagerhint");
    let kde_hint = chars_of("x-kde-passwordmanagerhint");
    let concealed = chars_of("concealed");
    let mut i: usize = 0;
    while i < lines.len()
        invariant
            i <= lines@.len(),
            text::texts(lines@) == text::lines(types@),
            hint@ == "passwordmanagerhint"@,
            kde_hint@ == "x-kde-passwordmanagerhint"@,
            concealed@ == "concealed"@,
            forall|j: int| 0 <= j < i ==> !marks_concealed(#[trigger] text::lines(types@)[j]),
        decreases lines@.len() - i,
    {
        let lower = lowercase_of(lines[i].as_slice());
        assert(text::texts(lines@)[i as int] == lines@[i as int]@);
        if has_part(lower.as_slice(), hint.as_slice()) || has_part(
            lower.as_slice(),
            kde_hint.as_slice(),
        ) || has_part(lower.as_slice(), concealed.as_slice()) {
            assert(marks_concealed(text::lines(types@)[i as int]));
            return true;
        }
        i += 1;
    }
    assert(text::texts(lines@).len() == lines@.len());
    false
}

/// Whether the clipboard is concealed, by the output of a program that lists
/// types.
pub fn linux_concealed(output: Option<Vec<u8>>) -> (r: bool)
    ensures
        r == concealed_by(
            match output {
                Some(bytes) => Some(bytes@),
                None => None,
            },
        ),
{
    match output {
        None => true,
        Some(bytes) => {
            let types = text_of_bytes(bytes.as_slice());
            types_concealed(types.as_str())
        },
    }
}

// ---- laws ----

/// Under Wayland only the Wayland programs are called, and without it only
/// `xclip` is.
pub proof fn wayland_decides_on_programs(b: Backends)
    ensures
        b.wayland ==> !b.can_xclip() && b.can_wl_paste() == b.wl_paste && b.can_wl_copy()
            == b.wl_copy,
        !b.wayland ==> !b.can_wl_paste() && !b.can_wl_copy() && b.can_xclip() == b.xclip,
{
}

/// The name of the backends, split at its plus signs, names each that is there
/// and no other. It is `none` where there is none.
pub proof fn backends_are_named(b: Backends)
    ensures
        ({
            let named = text::split(backend_name(b), '+');
            &&& named.contains("arboard"@) <==> b.arboard
            &&& named.contains("wl-clipboard"@) <==> b.wl_copy
            &&& named.contains("xclip"@) <==> b.xclip
            &&& named.contains("nspasteboard"@) <==> b.system == System::MacOs
            &&& backend_name(b) == "none"@ <==> !b.arboard && !b.wl_copy && !b.xclip && b.system
                != System::MacOs
        }),
{
    reveal_strlit("arboard");
    reveal_strlit("wl-clipboard");
    reveal_strlit("xclip");
    reveal_strlit("nspasteboard");
    reveal_strlit("none");
    reveal_strlit("+");
    assert("+"@ =~= seq!['+']);
    assert("arboard"@[0] == 'a' && "wl-clipboard"@[0] == 'w' && "xclip"@[0] == 'x'
        && "nspasteboard"@[1] == 's' && "none"@[1] == 'o' && "nspasteboard"@[0] == 'n' && "none"@[0]
        == 'n');
    let parts = backend_parts(b);
    assert forall|i: int| 0 <= i < parts.len() implies text::lacks(#[trigger] parts[i], '+') by {}
    assert(text::lacks("none"@, '+'));
    if parts.len() == 0 {
        text::fields_end_at_separators("none"@, '+', "none"@);
        assert(text::split(backend_name(b), '+')[0] == "none"@);
    } else {
        text::joined_texts_are_split_again(parts, '+');
        if backend_name(b) == "none"@ {
            text::fields_end_at_separators("none"@, '+', "none"@);
            assert(parts[0] == "none"@);
        }
        let a: int = if b.arboard {
            1
        } else {
            0
        };
        let w: int = if b.wl_copy {
            a + 1
        } else {
            a
        };
        if b.arboard {
            assert(parts[0] == "arboard"@);
        }
        if b.wl_copy {
            assert(parts[a] == "wl-clipboard"@);
        }
        if b.xclip {
            assert(parts[w] == "xclip"@);
        }
        if b.system == System::MacOs {
            assert(parts.last() == "nspasteboard"@);
        }
    }
}

/// A Wayland socket is named `wayland-` and a number.
pub proof fn sockets_are_numbered(rest: Seq<char>, name: Seq<char>)
    ensures
        socket_name("wayland-"@ + rest) <==> rest.len() > 0 && text::all_digits(rest),
        socket_name(name) ==> exists|digits: Seq<char>|
            digits.len() > 0 && text::all_digits(digits) && name == #[trigger] ("wayland-"@
                + digits),
{
    let prefix = "wayland-"@;
    text::beginnings_are_found(prefix + rest, prefix, rest);
    assert((prefix + rest).skip(prefix.len() as int) =~= rest);
    if socket_name(name) {
        text::beginnings_are_found(name, prefix, rest);
        let digits = name.skip(prefix.len() as int);
        assert(name == prefix + digits);
    }
}

/// The socket that was changed last is the one to take, wherever it stands among
/// the entries. What is no socket, or has another name, does not count.
pub proof fn last_changed_socket_is_taken(entries: Seq<SocketEntry>, at: int)
    requires
        0 <= at < entries.len(),
        entries[at].is_socket,
        socket_name(entries[at].name@),
        forall|i: int|
            0 <= i < entries.len() && i != at && (#[trigger] entries[i]).is_socket && socket_name(
                entries[i].name@,
            ) ==> entries[i].modified < entries[at].modified,
    ensures
        is_newest(entries, at),
{
}

/// No socket was changed after the one that is taken, and that is one. Of several
/// that were changed at its time it is the first.
pub proof fn nothing_was_changed_after_the_taken_socket(
    entries: Seq<SocketEntry>,
    at: int,
    i: int,
)
    requires
        is_newest(entries, at),
        0 <= i < entries.len(),
        entries[i].is_socket,
        socket_name(entries[i].name@),
    ensures
        0 <= at < entries.len(),
        entries[at].is_socket,
        socket_name(entries[at].name@),
        entries[i].modified <= entries[at].modified,
        entries[i].modified == entries[at].modified ==> at <= i,
{
    assert(is_candidate(entries[i]));
}

/// A list of types marks the clipboard as concealed wherever it holds one of the
/// two hints, in capitals or not.
pub proof fn hints_conceal(before: Seq<char>, hint: Seq<char>, after: Seq<char>)
    requires
        text::lowercase(hint) == "passwordmanagerhint"@ || text::lowercase(hint) == "concealed"@,
    ensures
        lists_concealed(before + hint + after),
{
    reveal_strlit("passwordmanagerhint");
    reveal_strlit("concealed");
    let lower = text::lowercase(hint);
    assert forall|i: int| 0 <= i < hint.len() implies #[trigger] hint[i] != '\n' && hint[i]
        != '\r' by {
        text::lowercase_changes_capitals_only(hint, i);
        assert(lower[i] != '\n' && lower[i] != '\r');
    }
    assert(hint.len() == lower.len());
    text::parts_stand_in_lines(before, hint, after);
    let all = text::lines(before + hint + after);
    let i = choose|i: int| 0 <= i < all.len() && text::contains(#[trigger] all[i], hint);
    text::parts_are_found(all[i], seq![], hint, seq![]);
    let (a, b) = choose|a: Seq<char>, b: Seq<char>| all[i] == #[trigger] (a + hint + b);
    lemma_lowercase_of_parts(a, hint, b);
    text::parts_are_found(
        text::lowercase(all[i]),
        text::lowercase(a),
        text::lowercase(hint),
        text::lowercase(b),
    );
    assert(marks_concealed(all[i]));
}

proof fn lemma_lowercase_of_parts(a: Seq<char>, part: Seq<char>, b: Seq<char>)
    ensures
        text::lowercase(a + part + b) == text::lowercase(a) + text::lowercase(part)
            + text::lowercase(b),
{
    assert(text::lowercase(a + part + b) =~= text::lowercase(a) + text::lowercase(part)
        + text::lowercase(b));
}

/// A list of types without either hint does not mark the clipboard as concealed.
pub proof fn nothing_else_conceals(types: Seq<char>)
    requires
        !text::contains(text::lowercase(types), "passwordmanagerhint"@),
        !text::contains(text::lowercase(types), "concealed"@),
    ensures
        !lists_concealed(types),
{
    if lists_concealed(types) {
        let all = text::lines(types);
        let i = choose|i: int| 0 <= i < all.len() && marks_concealed(#[trigger] all[i]);
        text::lines_are_parts(types, i);
        let (a, b) = choose|a: Seq<char>, b: Seq<char>| types == #[trigger] (a + all[i] + b);
        lemma_lowercase_of_parts(a, all[i], b);
        let lower = text::lowercase(all[i]);
        if text::contains(lower, "concealed"@) {
            lemma_part_of_part(text::lowercase(a), lower, text::lowercase(b), "concealed"@);
        } else if text::contains(lower, "passwordmanagerhint"@) {
            lemma_part_of_part(text::lowercase(a), lower, text::lowercase(b), "passwordmanagerhint"@);
        } else {
            reveal_strlit("passwordmanagerhint");
            reveal_strlit("x-kde-passwordmanagerhint");
            reveal_strlit("x-kde-");
            assert("x-kde-passwordmanagerhint"@ =~= "x-kde-"@ + "passwordmanagerhint"@ + seq![]);
            text::parts_are_found("x-kde-passwordmanagerhint"@, "x-kde-"@, "passwordmanagerhint"@, seq![]);
            let hint = "x-kde-passwordmanagerhint"@;
            text::parts_are_found(lower, seq![], hint, seq![]);
            let (c, d) = choose|c: Seq<char>, d: Seq<char>| lower == #[trigger] (c + hint + d);
            lemma_part_of_part(c, hint, d, "passwordmanagerhint"@);
            lemma_part_of_part(text::lowercase(a), lower, text::lowercase(b), "passwordmanagerhint"@);
        }
    }
}

proof fn lemma_part_of_part(a: Seq<char>, s: Seq<char>, b: Seq<char>, part: Seq<char>)
    requires
        text::contains(s, part),
    ensures
        text::contains(a + s + b, part),
{
    text::parts_are_found(s, seq![], part, seq![]);
    let (c, d) = choose|c: Seq<char>, d: Seq<char>| s == #[trigger] (c + part + d);
    assert(a + s + b =~= (a + c) + part + (d + b));
    text::parts_are_found(a + s + b, a + c, part, d + b);
}

/// The backends are named in this order: the clipboard of this process, the
/// Wayland programs, `xclip`, and the macOS pasteboard.
pub proof fn backends_are_named_in_order(b: Backends)
    ensures
        ({
            let named = text::split(backend_name(b), '+');
            &&& b.arboard ==> named[0] == "arboard"@
            &&& b.wl_copy && b.xclip ==> exists|i: int|
                0 <= i && i + 1 < named.len() && #[trigger] named[i] == "wl-clipboard"@ && named[i
                    + 1] == "xclip"@
            &&& b.system == System::MacOs ==> named.last() == "nspasteboard"@
        }),
{
    reveal_strlit("arboard");
    reveal_strlit("wl-clipboard");
    reveal_strlit("xclip");
    reveal_strlit("nspasteboard");
    reveal_strlit("+");
    assert("+"@ =~= seq!['+']);
    let parts = backend_parts(b);
    if parts.len() > 0 {
        assert forall|i: int| 0 <= i < parts.len() implies text::lacks(
            #[trigger] parts[i],
            '+',
        ) by {}
        text::joined_texts_are_split_again(parts, '+');
        let named = text::split(backend_name(b), '+');
        assert(named == parts);
        if b.arboard {
            assert(parts[0] == "arboard"@);
        }
        if b.wl_copy && b.xclip {
            let i: int = if b.arboard {
                1
            } else {
                0
            };
            assert(named[i] == "wl-clipboard"@ && named[i + 1] == "xclip"@);
        }
        if b.system == System::MacOs {
            assert(parts.last() == "nspasteboard"@);
        }
    }
}

} // verus!
